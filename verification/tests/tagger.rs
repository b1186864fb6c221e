use aktags_cloud::tagger::{compute_file_hash, compute_file_md5, file_type_for_extension, guess_file_type, suggest_tags};
use std::path::Path;

/// The classification and tagging the file names get, written with `std`
/// for comparison.
fn reference_guess(name: &str) -> Option<String> {
    let ext = Path::new(name).extension()?.to_string_lossy().to_lowercase();
    let t = match ext.as_str() {
        "jpg" | "jpeg" | "png" | "gif" | "webp" | "svg" | "bmp" | "ico" | "tiff" | "tif" => "image",
        "mp4" | "mkv" | "avi" | "mov" | "wmv" | "flv" | "webm" | "m4v" => "video",
        "mp3" | "wav" | "flac" | "aac" | "ogg" | "wma" | "m4a" => "audio",
        "pdf" | "doc" | "docx" | "txt" | "rtf" | "odt" | "xls" | "xlsx" | "ppt" | "pptx" => "document",
        "zip" | "tar" | "gz" | "rar" | "7z" | "bz2" | "xz" => "archive",
        "rs" | "js" | "ts" | "py" | "go" | "java" | "c" | "cpp" | "h" | "hpp" | "cs" | "rb" | "php" | "swift"
        | "kt" => "code",
        "html" | "css" | "scss" | "sass" | "less" | "json" | "xml" | "yaml" | "yml" | "toml" | "md" => "web",
        _ => return None,
    };
    Some(t.to_string())
}

fn reference_suggest(name: &str) -> Vec<String> {
    let name = Path::new(name);
    let mut tags = Vec::new();
    let name_lower = name.file_name().map(|n| n.to_string_lossy().to_lowercase()).unwrap_or_default();
    for year in ["2024", "2025", "2026"] {
        if name_lower.contains(year) {
            tags.push(year.to_string());
        }
    }
    if let Some(ext) = name.extension() {
        if let Some(ext_str) = ext.to_str() {
            tags.push(ext_str.to_lowercase());
        }
    }
    if let Some(file_type) = reference_guess(&name.to_string_lossy()) {
        tags.push(file_type);
    }
    tags.sort();
    tags.dedup();
    tags
}

const NAMES: &[&str] = &[
    "photo.JPG", "x.unknown", "noext", "report_2024.PDF", "2024_2025_2026.md", "a/b/2025/clip.mkv",
    "song.Mp3", "notes.TXT", "bundle.tar.gz", "main.rs", "index.HTML", ".hidden", "Backup-2026.ZIP",
    "weird.\u{212A}T", "dir.2024/file", "a.b.c.yml", "README", "x.", "2026", "Z.jpg/..", "data.json",
    "movie.webm", "scan.tif", "sheet.XLSX", "k.kt", "cfg.toml", "style.SCSS", "ä.ÄÖ",
];

#[test]
fn guess_file_type_matches_reference() {
    for n in NAMES {
        assert_eq!(guess_file_type(n), reference_guess(n), "guess_file_type({:?})", n);
    }
}

#[test]
fn suggest_tags_matches_reference() {
    for n in NAMES {
        assert_eq!(suggest_tags(n), reference_suggest(n), "suggest_tags({:?})", n);
    }
}

#[test]
fn guess_file_type_categories() {
    assert_eq!(guess_file_type("photo.JPG").as_deref(), Some("image"));
    assert_eq!(guess_file_type("clip.mkv").as_deref(), Some("video"));
    assert_eq!(guess_file_type("song.flac").as_deref(), Some("audio"));
    assert_eq!(guess_file_type("paper.pdf").as_deref(), Some("document"));
    assert_eq!(guess_file_type("bundle.tar.gz").as_deref(), Some("archive"));
    assert_eq!(guess_file_type("lib.rs").as_deref(), Some("code"));
    assert_eq!(guess_file_type("page.html").as_deref(), Some("web"));
    assert_eq!(guess_file_type("x.unknown"), None);
    assert_eq!(guess_file_type("noext"), None);
    assert_eq!(guess_file_type(".png"), None);
}

#[test]
fn extension_case_follows_unicode_lowercase() {
    // KELVIN SIGN lowercases to an ASCII `k`.
    assert_eq!(guess_file_type("weird.\u{212A}T").as_deref(), Some("code"));
}

#[test]
fn file_type_for_extension_is_exact() {
    assert_eq!(file_type_for_extension("jpeg").as_deref(), Some("image"));
    assert_eq!(file_type_for_extension("JPEG"), None);
    assert_eq!(file_type_for_extension(""), None);
}

#[test]
fn suggest_tags_sorted_without_repeats() {
    assert_eq!(suggest_tags("report_2024.PDF"), vec!["2024", "document", "pdf"]);
    assert_eq!(suggest_tags("2024_2025_2026.md"), vec!["2024", "2025", "2026", "md", "web"]);
    assert_eq!(suggest_tags("README"), Vec::<String>::new());
    assert_eq!(suggest_tags("2026.zip"), vec!["2026", "archive", "zip"]);
    let tags = suggest_tags("Backup-2026.ZIP");
    let mut sorted = tags.clone();
    sorted.sort();
    sorted.dedup();
    assert_eq!(tags, sorted);
}

#[test]
fn suggest_tags_years_only_from_file_name() {
    assert_eq!(suggest_tags("dir.2024/file"), Vec::<String>::new());
    assert_eq!(suggest_tags("a/2025/clip.mkv"), vec!["mkv", "video"]);
}

#[test]
fn compute_file_hash_known_values() {
    assert_eq!(compute_file_hash(b""), "e3b0c44298fc1c149afbf4c8996fb92427ae41e4649b934ca495991b7852b855");
    assert_eq!(compute_file_hash(b"abc"), "ba7816bf8f01cfea414140de5dae2223b00361a396177a9cb410ff61f20015ad");
}

#[test]
fn compute_file_md5_known_values() {
    assert_eq!(compute_file_md5(b""), "d41d8cd98f00b204e9800998ecf8427e");
    assert_eq!(compute_file_md5(b"abc"), "900150983cd24fb0d6963f7d28e17f72");
}
