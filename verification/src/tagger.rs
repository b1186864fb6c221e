//! File classification and tag suggestion from a file's name, and the
//! content hashes that identify a file's bytes.
use vstd::prelude::*;
use crate::text::{ascii_lowercase, chars_equal, chars_of, is_ascii_text, contains, contains_text, less_than, lowercase, owned, str_equal, text_lt, unicode_lowercase, lemma_text_lt_irreflexive, lemma_text_lt_total, lemma_text_lt_transitive};
use crate::paths::{extension, extension_of, file_name, file_name_of};
use crate::digest::{hex_lower, md5_hex, md5_of, sha256_hex, sha256_of};

verus! {

broadcast use vstd::string::group_string_axioms;

/// `t` is one of the texts in `list`.
pub open spec fn listed(list: Seq<&str>, t: Seq<char>) -> bool {
    exists|i: int| 0 <= i < list.len() && list[i]@ == t
}

pub open spec fn image_extensions() -> Seq<&'static str> {
    seq!["jpg", "jpeg", "png", "gif", "webp", "svg", "bmp", "ico", "tiff", "tif"]
}

pub open spec fn video_extensions() -> Seq<&'static str> {
    seq!["mp4", "mkv", "avi", "mov", "wmv", "flv", "webm", "m4v"]
}

pub open spec fn audio_extensions() -> Seq<&'static str> {
    seq!["mp3", "wav", "flac", "aac", "ogg", "wma", "m4a"]
}

pub open spec fn document_extensions() -> Seq<&'static str> {
    seq!["pdf", "doc", "docx", "txt", "rtf", "odt", "xls", "xlsx", "ppt", "pptx"]
}

pub open spec fn archive_extensions() -> Seq<&'static str> {
    seq!["zip", "tar", "gz", "rar", "7z", "bz2", "xz"]
}

pub open spec fn code_extensions() -> Seq<&'static str> {
    seq![
        "rs", "js", "ts", "py", "go", "java", "c", "cpp", "h", "hpp", "cs", "rb", "php", "swift",
        "kt",
    ]
}

pub open spec fn web_extensions() -> Seq<&'static str> {
    seq!["html", "css", "scss", "sass", "less", "json", "xml", "yaml", "yml", "toml", "md"]
}

/// The category of a (lowercased) extension: the first list, in the order
/// image, video, audio, document, archive, code, web, that holds it.
pub open spec fn extension_category(e: Seq<char>) -> Option<Seq<char>> {
    if listed(image_extensions(), e) {
        Some("image"@)
    } else if listed(video_extensions(), e) {
        Some("video"@)
    } else if listed(audio_extensions(), e) {
        Some("audio"@)
    } else if listed(document_extensions(), e) {
        Some("document"@)
    } else if listed(archive_extensions(), e) {
        Some("archive"@)
    } else if listed(code_extensions(), e) {
        Some("code"@)
    } else if listed(web_extensions(), e) {
        Some("web"@)
    } else {
        None
    }
}

/// The file type that the name's extension, lowercased, stands for.
pub open spec fn guessed_type(name: Seq<char>) -> Option<Seq<char>> {
    match extension_of(name) {
        Some(e) => extension_category(unicode_lowercase(e)),
        None => None,
    }
}

fn in_list(e: &str, list: &[&str]) -> (r: bool)
    ensures
        r == listed(list@, e@),
{
    let mut i: usize = 0;
    while i < list.len()
        invariant
            i <= list@.len(),
            forall|j: int| 0 <= j < i ==> list@[j]@ != e@,
        decreases list@.len() - i,
    {
        if str_equal(list[i], e) {
            return true;
        }
        i = i + 1;
    }
    false
}

/// The category name for an extension that is already lowercase.
pub fn file_type_for_extension(ext: &str) -> (r: Option<String>)
    ensures
        match r {
            Some(s) => extension_category(ext@) == Some(s@),
            None => extension_category(ext@) is None,
        },
{
    let image = ["jpg", "jpeg", "png", "gif", "webp", "svg", "bmp", "ico", "tiff", "tif"];
    let video = ["mp4", "mkv", "avi", "mov", "wmv", "flv", "webm", "m4v"];
    let audio = ["mp3", "wav", "flac", "aac", "ogg", "wma", "m4a"];
    let document = ["pdf", "doc", "docx", "txt", "rtf", "odt", "xls", "xlsx", "ppt", "pptx"];
    let archive = ["zip", "tar", "gz", "rar", "7z", "bz2", "xz"];
    let code = [
        "rs", "js", "ts", "py", "go", "java", "c", "cpp", "h", "hpp", "cs", "rb", "php", "swift",
        "kt",
    ];
    let web = ["html", "css", "scss", "sass", "less", "json", "xml", "yaml", "yml", "toml", "md"];
    assert(image@ =~= image_extensions());
    assert(video@ =~= video_extensions());
    assert(audio@ =~= audio_extensions());
    assert(document@ =~= document_extensions());
    assert(archive@ =~= archive_extensions());
    assert(code@ =~= code_extensions());
    assert(web@ =~= web_extensions());
    if in_list(ext, &image) {
        Some(String::from_str("image"))
    } else if in_list(ext, &video) {
        Some(String::from_str("video"))
    } else if in_list(ext, &audio) {
        Some(String::from_str("audio"))
    } else if in_list(ext, &document) {
        Some(String::from_str("document"))
    } else if in_list(ext, &archive) {
        Some(String::from_str("archive"))
    } else if in_list(ext, &code) {
        Some(String::from_str("code"))
    } else if in_list(ext, &web) {
        Some(String::from_str("web"))
    } else {
        None
    }
}

/// The kind of file that `name` is, judged by its extension
/// (case-insensitive): `image`, `video`, `audio`, `document`, `archive`,
/// `code` or `web`; `None` for a name without a known extension.
pub fn guess_file_type(name: &str) -> (r: Option<String>)
    ensures
        match r {
            Some(s) => guessed_type(name@) == Some(s@),
            None => guessed_type(name@) is None,
        },
        extension_of(name@) matches Some(e) ==> (is_ascii_text(e) ==> unicode_lowercase(e)
            == ascii_lowercase(e)),
{
    match extension(name) {
        None => None,
        Some(e) => {
            let lower = lowercase(e.as_str());
            file_type_for_extension(lower.as_str())
        },
    }
}

/// The year texts that `suggest_tags` looks for in a file name.
pub open spec fn year_patterns() -> Seq<Seq<char>> {
    seq!["2024"@, "2025"@, "2026"@]
}

/// The file name of `name`, lowercased, or the empty text if it has none.
pub open spec fn lower_file_name(name: Seq<char>) -> Seq<char> {
    match file_name_of(name) {
        Some(f) => unicode_lowercase(f),
        None => Seq::empty(),
    }
}

/// The first `k` year patterns that occur in `lower`, in order.
pub open spec fn years_found(lower: Seq<char>, k: int) -> Seq<Seq<char>>
    decreases k,
{
    if k <= 0 {
        Seq::empty()
    } else if contains_text(lower, year_patterns()[k - 1]) {
        years_found(lower, k - 1).push(year_patterns()[k - 1])
    } else {
        years_found(lower, k - 1)
    }
}

/// The tags `suggest_tags` collects before ordering them: each year that
/// occurs in the lowercased file name, then the lowercased extension, then
/// the guessed file type.
pub open spec fn tag_candidates(name: Seq<char>) -> Seq<Seq<char>> {
    years_found(lower_file_name(name), 3) + match extension_of(
        name,
    ) {
        Some(e) => seq![unicode_lowercase(e)],
        None => Seq::empty(),
    } + match guessed_type(name) {
        Some(t) => seq![t],
        None => Seq::empty(),
    }
}

/// Strictly increasing in the order of `String`'s `Ord`: sorted, without
/// repeats.
pub open spec fn strictly_sorted(s: Seq<Seq<char>>) -> bool {
    forall|i: int, j: int| 0 <= i < j < s.len() ==> text_lt(#[trigger] s[i], #[trigger] s[j])
}

/// The texts held by a vector of strings.
pub open spec fn texts(v: Seq<String>) -> Seq<Seq<char>> {
    v.map_values(|s: String| s@)
}

proof fn lemma_push_contains(s: Seq<Seq<char>>, e: Seq<char>)
    ensures
        forall|x: Seq<char>| s.push(e).contains(x) <==> (s.contains(x) || x == e),
        s + seq![e] == s.push(e),
{
    assert(s + seq![e] =~= s.push(e));
    assert forall|x: Seq<char>| s.push(e).contains(x) <==> (s.contains(x) || x == e) by {
        if s.push(e).contains(x) {
            let j = choose|j: int| 0 <= j < s.push(e).len() && s.push(e)[j] == x;
            if j < s.len() {
                assert(s[j] == x);
            }
        }
        if s.contains(x) {
            let j = choose|j: int| 0 <= j < s.len() && s[j] == x;
            assert(s.push(e)[j] == x);
        }
        if x == e {
            assert(s.push(e)[s.len() as int] == x);
        }
    }
}

proof fn lemma_tracks_push(
    old_tags: Seq<Seq<char>>,
    new_tags: Seq<Seq<char>>,
    c0: Seq<Seq<char>>,
    e: Seq<char>,
)
    requires
        forall|x: Seq<char>| old_tags.contains(x) <==> c0.contains(x),
        forall|x: Seq<char>| new_tags.contains(x) <==> (old_tags.contains(x) || x == e),
    ensures
        forall|x: Seq<char>| new_tags.contains(x) <==> (c0 + seq![e]).contains(x),
{
    lemma_push_contains(c0, e);
    assert forall|x: Seq<char>| new_tags.contains(x) <==> (c0 + seq![e]).contains(x) by {
        assert(old_tags.contains(x) <==> c0.contains(x));
        assert(new_tags.contains(x) <==> (old_tags.contains(x) || x == e));
        assert(c0.push(e).contains(x) <==> (c0.contains(x) || x == e));
    }
}

/// Inserts `t` into a strictly sorted vector unless it is already there.
fn insert_sorted(v: &mut Vec<String>, t: String)
    requires
        strictly_sorted(texts(old(v)@)),
    ensures
        strictly_sorted(texts(final(v)@)),
        forall|x: Seq<char>| texts(final(v)@).contains(x) <==> (texts(old(v)@).contains(x) || x == t@),
{
    let tv = chars_of(t.as_str());
    let mut i: usize = 0;
    while i < v.len()
        invariant_except_break
            i <= v@.len(),
            tv@ == t@,
            forall|j: int| 0 <= j < i ==> text_lt(#[trigger] v@[j]@, t@),
        ensures
            i <= v@.len(),
            forall|j: int| 0 <= j < i ==> text_lt(#[trigger] v@[j]@, t@),
            i < v@.len() ==> !text_lt(v@[i as int]@, t@),
        decreases v@.len() - i,
    {
        let cv = chars_of(v[i].as_str());
        if !less_than(&cv, &tv) {
            break;
        }
        i = i + 1;
    }
    let ghost before = texts(v@);
    assert(forall|j: int| 0 <= j < v@.len() ==> #[trigger] texts(v@)[j] == v@[j]@);
    if i < v.len() {
        let cv = chars_of(v[i].as_str());
        if chars_equal(&cv, &tv) {
            assert(texts(v@)[i as int] == t@);
            return;
        }
        proof {
            lemma_text_lt_total(v@[i as int]@, t@);
        }
    }
    v.insert(i, t);
    proof {
        let after = texts(v@);
        assert(after =~= before.insert(i as int, t@));
        assert forall|a: int, b: int| 0 <= a < b < after.len() implies text_lt(
            #[trigger] after[a],
            #[trigger] after[b],
        ) by {
            if a < i && b == i {
            } else if a < i && b > i {
                assert(before[b - 1] == after[b]);
                if i < before.len() {
                    assert(text_lt(t@, before[i as int]));
                    if b - 1 > i {
                        lemma_text_lt_transitive(t@, before[i as int], before[b - 1]);
                    }
                    lemma_text_lt_transitive(before[a], t@, before[b - 1]);
                }
            } else if a == i {
                assert(before[b - 1] == after[b]);
                if b - 1 > i {
                    lemma_text_lt_transitive(t@, before[i as int], before[b - 1]);
                }
            } else if a > i {
                assert(before[a - 1] == after[a]);
                assert(before[b - 1] == after[b]);
            }
        }
        assert forall|x: Seq<char>| after.contains(x) <==> (before.contains(x) || x == t@) by {
            if after.contains(x) {
                let k = choose|k: int| 0 <= k < after.len() && after[k] == x;
                if k < i {
                    assert(before[k] == x);
                } else if k > i {
                    assert(before[k - 1] == x);
                }
            }
            if before.contains(x) {
                let k = choose|k: int| 0 <= k < before.len() && before[k] == x;
                if k < i {
                    assert(after[k] == x);
                } else {
                    assert(after[k + 1] == x);
                }
            }
            if x == t@ {
                assert(after[i as int] == x);
            }
        }
    }
}

/// Tags suggested for a file from its name: the years 2024, 2025 and 2026
/// when they occur in the lowercased file name, the lowercased extension,
/// and the guessed file type; sorted and without repeats.
pub fn suggest_tags(name: &str) -> (r: Vec<String>)
    ensures
        strictly_sorted(texts(r@)),
        forall|x: Seq<char>| texts(r@).contains(x) <==> tag_candidates(name@).contains(x),
        file_name_of(name@) matches Some(f) ==> (is_ascii_text(f) ==> unicode_lowercase(f)
            == ascii_lowercase(f)),
        extension_of(name@) matches Some(e) ==> (is_ascii_text(e) ==> unicode_lowercase(e)
            == ascii_lowercase(e)),
{
    let mut tags: Vec<String> = Vec::new();
    let ghost mut cands: Seq<Seq<char>> = Seq::empty();
    let name_lower: String = match file_name(name) {
        Some(f) => lowercase(f.as_str()),
        None => String::new(),
    };
    assert(name_lower@ == lower_file_name(name@));
    let lower_chars = chars_of(name_lower.as_str());
    let years = ["2024", "2025", "2026"];
    let ghost yp = year_patterns();
    assert(yp.len() == 3);
    let mut k: usize = 0;
    while k < 3
        invariant
            k <= 3,
            years@.len() == 3,
            lower_chars@ == lower_file_name(name@),
            yp == year_patterns(),
            forall|j: int| 0 <= j < 3 ==> years@[j]@ == #[trigger] yp[j],
            cands == years_found(lower_file_name(name@), k as int),
            strictly_sorted(texts(tags@)),
            forall|x: Seq<char>| texts(tags@).contains(x) <==> cands.contains(x),
        decreases 3 - k,
    {
        let yv = chars_of(years[k]);
        let hit = contains(&lower_chars, &yv);
        if hit {
            let ghost old_tags = texts(tags@);
            insert_sorted(&mut tags, owned(years[k]));
            proof {
                lemma_tracks_push(old_tags, texts(tags@), cands, yp[k as int]);
                lemma_push_contains(cands, yp[k as int]);
                cands = cands.push(yp[k as int]);
            }
        }
        k = k + 1;
    }
    match extension(name) {
        Some(e) => {
            let le = lowercase(e.as_str());
            let ghost old_tags = texts(tags@);
            insert_sorted(&mut tags, le);
            proof {
                lemma_tracks_push(old_tags, texts(tags@), cands, unicode_lowercase(e@));
                cands = cands + seq![unicode_lowercase(e@)];
            }
        },
        None => {
            proof {
                assert(cands + Seq::empty() =~= cands);
                cands = cands + Seq::empty();
            }
        },
    }
    match guess_file_type(name) {
        Some(t) => {
            let ghost old_tags = texts(tags@);
            let ghost te = t@;
            insert_sorted(&mut tags, t);
            proof {
                lemma_tracks_push(old_tags, texts(tags@), cands, te);
                cands = cands + seq![te];
            }
        },
        None => {
            proof {
                assert(cands + Seq::empty() =~= cands);
                cands = cands + Seq::empty();
            }
        },
    }
    assert(cands =~= tag_candidates(name@));
    tags
}

/// SHA-256 of a file's content, as 64 lowercase hex digits.
pub fn compute_file_hash(content: &[u8]) -> (r: String)
    ensures
        r@ == hex_lower(sha256_of(content@)),
        r@.len() == 64,
{
    sha256_hex(content)
}

/// MD5 of a file's content, as 32 lowercase hex digits.
pub fn compute_file_md5(content: &[u8]) -> (r: String)
    ensures
        r@ == hex_lower(md5_of(content@)),
        r@.len() == 32,
{
    md5_hex(content)
}

/// Members of a strictly sorted sequence after its first element are the
/// members other than the first.
proof fn lemma_sorted_tail_members(a: Seq<Seq<char>>, x: Seq<char>)
    requires
        strictly_sorted(a),
        a.len() > 0,
    ensures
        a.drop_first().contains(x) <==> (a.contains(x) && x != a[0]),
{
    if a.drop_first().contains(x) {
        let k = choose|k: int| 0 <= k < a.drop_first().len() && a.drop_first()[k] == x;
        assert(a[k + 1] == x);
        assert(text_lt(a[0], a[k + 1]));
        lemma_text_lt_irreflexive(x);
    }
    if a.contains(x) && x != a[0] {
        let k = choose|k: int| 0 <= k < a.len() && a[k] == x;
        assert(k != 0);
        assert(a.drop_first()[k - 1] == x);
    }
}

/// A strictly sorted sequence is fixed by its members: `suggest_tags`'s
/// contract pins its result to the sorted, repeat-free list of the tag
/// candidates, which is what sorting and removing adjacent repeats gives.
pub proof fn lemma_sorted_set_unique(a: Seq<Seq<char>>, b: Seq<Seq<char>>)
    requires
        strictly_sorted(a),
        strictly_sorted(b),
        forall|x: Seq<char>| a.contains(x) <==> b.contains(x),
    ensures
        a == b,
    decreases a.len(),
{
    if a.len() == 0 {
        if b.len() > 0 {
            assert(b.contains(b[0]));
        }
        assert(a =~= b);
    } else {
        assert(a.contains(a[0]));
        assert(b.len() > 0);
        assert(b.contains(b[0]));
        let i = choose|i: int| 0 <= i < a.len() && a[i] == b[0];
        let j = choose|j: int| 0 <= j < b.len() && b[j] == a[0];
        if i > 0 && j > 0 {
            assert(text_lt(a[0], a[i]));
            assert(text_lt(b[0], b[j]));
            lemma_text_lt_total(a[0], b[0]);
        } else if i > 0 {
            assert(text_lt(a[0], a[i]));
            lemma_text_lt_irreflexive(a[0]);
        } else if j > 0 {
            assert(text_lt(b[0], b[j]));
            lemma_text_lt_irreflexive(b[0]);
        }
        assert(a[0] == b[0]);
        assert forall|x: Seq<char>| a.drop_first().contains(x) <==> b.drop_first().contains(x) by {
            lemma_sorted_tail_members(a, x);
            lemma_sorted_tail_members(b, x);
        }
        assert(strictly_sorted(a.drop_first()));
        assert(strictly_sorted(b.drop_first()));
        lemma_sorted_set_unique(a.drop_first(), b.drop_first());
        assert(a =~= seq![a[0]] + a.drop_first());
        assert(b =~= seq![b[0]] + b.drop_first());
    }
}

/// The tags suggested for a name always include its guessed file type and
/// its lowercased extension, when it has them.
pub proof fn lemma_suggested_tags_include_type_and_extension(name: Seq<char>)
    ensures
        guessed_type(name) matches Some(t) ==> tag_candidates(name).contains(t),
        extension_of(name) matches Some(e) ==> tag_candidates(name).contains(unicode_lowercase(e)),
{
    let years = years_found(lower_file_name(name), 3);
    let ext_part: Seq<Seq<char>> = match extension_of(name) {
        Some(e) => seq![unicode_lowercase(e)],
        None => Seq::empty(),
    };
    let type_part: Seq<Seq<char>> = match guessed_type(name) {
        Some(t) => seq![t],
        None => Seq::empty(),
    };
    assert(tag_candidates(name) == years + ext_part + type_part);
    if let Some(t) = guessed_type(name) {
        assert((years + ext_part + type_part)[(years.len() + ext_part.len()) as int] == t);
    }
    if let Some(e) = extension_of(name) {
        assert((years + ext_part + type_part)[years.len() as int] == unicode_lowercase(e));
    }
}

/// `texts` are the views of the strings in `list`, in order.
proof fn lemma_listed_texts(list: Seq<&str>, texts: Seq<Seq<char>>, x: Seq<char>)
    requires
        list.len() == texts.len(),
        forall|i: int| 0 <= i < list.len() ==> #[trigger] list[i]@ == texts[i],
    ensures
        listed(list, x) <==> texts.contains(x),
{
    if listed(list, x) {
        let i = choose|i: int| 0 <= i < list.len() && list[i]@ == x;
        assert(texts[i] == x);
    }
    if texts.contains(x) {
        let i = choose|i: int| 0 <= i < texts.len() && texts[i] == x;
        assert(list[i]@ == x);
    }
}

spec fn image_texts() -> Seq<Seq<char>> {
    seq!["jpg"@, "jpeg"@, "png"@, "gif"@, "webp"@, "svg"@, "bmp"@, "ico"@, "tiff"@, "tif"@]
}

spec fn video_texts() -> Seq<Seq<char>> {
    seq!["mp4"@, "mkv"@, "avi"@, "mov"@, "wmv"@, "flv"@, "webm"@, "m4v"@]
}

spec fn audio_texts() -> Seq<Seq<char>> {
    seq!["mp3"@, "wav"@, "flac"@, "aac"@, "ogg"@, "wma"@, "m4a"@]
}

spec fn document_texts() -> Seq<Seq<char>> {
    seq!["pdf"@, "doc"@, "docx"@, "txt"@, "rtf"@, "odt"@, "xls"@, "xlsx"@, "ppt"@, "pptx"@]
}

spec fn archive_texts() -> Seq<Seq<char>> {
    seq!["zip"@, "tar"@, "gz"@, "rar"@, "7z"@, "bz2"@, "xz"@]
}

spec fn code_texts() -> Seq<Seq<char>> {
    seq!["rs"@, "js"@, "ts"@, "py"@, "go"@, "java"@, "c"@, "cpp"@, "h"@, "hpp"@, "cs"@, "rb"@, "php"@, "swift"@, "kt"@]
}

spec fn web_texts() -> Seq<Seq<char>> {
    seq!["html"@, "css"@, "scss"@, "sass"@, "less"@, "json"@, "xml"@, "yaml"@, "yml"@, "toml"@, "md"@]
}

proof fn lemma_lists_are_texts(x: Seq<char>)
    ensures
        listed(image_extensions(), x) <==> image_texts().contains(x),
        listed(video_extensions(), x) <==> video_texts().contains(x),
        listed(audio_extensions(), x) <==> audio_texts().contains(x),
        listed(document_extensions(), x) <==> document_texts().contains(x),
        listed(archive_extensions(), x) <==> archive_texts().contains(x),
        listed(code_extensions(), x) <==> code_texts().contains(x),
        listed(web_extensions(), x) <==> web_texts().contains(x),
{
    assert forall|i: int| 0 <= i < image_extensions().len() implies #[trigger] image_extensions()[i]@
        == image_texts()[i] by {}
    lemma_listed_texts(image_extensions(), image_texts(), x);
    assert forall|i: int| 0 <= i < video_extensions().len() implies #[trigger] video_extensions()[i]@
        == video_texts()[i] by {}
    lemma_listed_texts(video_extensions(), video_texts(), x);
    assert forall|i: int| 0 <= i < audio_extensions().len() implies #[trigger] audio_extensions()[i]@
        == audio_texts()[i] by {}
    lemma_listed_texts(audio_extensions(), audio_texts(), x);
    assert forall|i: int| 0 <= i < document_extensions().len() implies #[trigger] document_extensions()[i]@
        == document_texts()[i] by {}
    lemma_listed_texts(document_extensions(), document_texts(), x);
    assert forall|i: int| 0 <= i < archive_extensions().len() implies #[trigger] archive_extensions()[i]@
        == archive_texts()[i] by {}
    lemma_listed_texts(archive_extensions(), archive_texts(), x);
    assert forall|i: int| 0 <= i < code_extensions().len() implies #[trigger] code_extensions()[i]@
        == code_texts()[i] by {}
    lemma_listed_texts(code_extensions(), code_texts(), x);
    assert forall|i: int| 0 <= i < web_extensions().len() implies #[trigger] web_extensions()[i]@
        == web_texts()[i] by {}
    lemma_listed_texts(web_extensions(), web_texts(), x);
}


proof fn lemma_literal_chars()
    ensures
        "7z"@.len() == 2 && "7z"@[0] == '7' && "7z"@[1] == 'z',
        "aac"@.len() == 3 && "aac"@[0] == 'a' && "aac"@[1] == 'a' && "aac"@[2] == 'c',
        "avi"@.len() == 3 && "avi"@[0] == 'a' && "avi"@[1] == 'v' && "avi"@[2] == 'i',
        "bmp"@.len() == 3 && "bmp"@[0] == 'b' && "bmp"@[1] == 'm' && "bmp"@[2] == 'p',
        "bz2"@.len() == 3 && "bz2"@[0] == 'b' && "bz2"@[1] == 'z' && "bz2"@[2] == '2',
        "c"@.len() == 1 && "c"@[0] == 'c',
        "cpp"@.len() == 3 && "cpp"@[0] == 'c' && "cpp"@[1] == 'p' && "cpp"@[2] == 'p',
        "cs"@.len() == 2 && "cs"@[0] == 'c' && "cs"@[1] == 's',
        "css"@.len() == 3 && "css"@[0] == 'c' && "css"@[1] == 's' && "css"@[2] == 's',
        "doc"@.len() == 3 && "doc"@[0] == 'd' && "doc"@[1] == 'o' && "doc"@[2] == 'c',
        "docx"@.len() == 4 && "docx"@[0] == 'd' && "docx"@[1] == 'o' && "docx"@[2] == 'c' && "docx"@[3] == 'x',
        "flac"@.len() == 4 && "flac"@[0] == 'f' && "flac"@[1] == 'l' && "flac"@[2] == 'a' && "flac"@[3] == 'c',
        "flv"@.len() == 3 && "flv"@[0] == 'f' && "flv"@[1] == 'l' && "flv"@[2] == 'v',
        "gif"@.len() == 3 && "gif"@[0] == 'g' && "gif"@[1] == 'i' && "gif"@[2] == 'f',
        "go"@.len() == 2 && "go"@[0] == 'g' && "go"@[1] == 'o',
        "gz"@.len() == 2 && "gz"@[0] == 'g' && "gz"@[1] == 'z',
        "h"@.len() == 1 && "h"@[0] == 'h',
        "hpp"@.len() == 3 && "hpp"@[0] == 'h' && "hpp"@[1] == 'p' && "hpp"@[2] == 'p',
        "html"@.len() == 4 && "html"@[0] == 'h' && "html"@[1] == 't' && "html"@[2] == 'm' && "html"@[3] == 'l',
        "ico"@.len() == 3 && "ico"@[0] == 'i' && "ico"@[1] == 'c' && "ico"@[2] == 'o',
        "java"@.len() == 4 && "java"@[0] == 'j' && "java"@[1] == 'a' && "java"@[2] == 'v' && "java"@[3] == 'a',
        "jpeg"@.len() == 4 && "jpeg"@[0] == 'j' && "jpeg"@[1] == 'p' && "jpeg"@[2] == 'e' && "jpeg"@[3] == 'g',
        "jpg"@.len() == 3 && "jpg"@[0] == 'j' && "jpg"@[1] == 'p' && "jpg"@[2] == 'g',
        "js"@.len() == 2 && "js"@[0] == 'j' && "js"@[1] == 's',
        "json"@.len() == 4 && "json"@[0] == 'j' && "json"@[1] == 's' && "json"@[2] == 'o' && "json"@[3] == 'n',
        "kt"@.len() == 2 && "kt"@[0] == 'k' && "kt"@[1] == 't',
        "less"@.len() == 4 && "less"@[0] == 'l' && "less"@[1] == 'e' && "less"@[2] == 's' && "less"@[3] == 's',
        "m4a"@.len() == 3 && "m4a"@[0] == 'm' && "m4a"@[1] == '4' && "m4a"@[2] == 'a',
        "m4v"@.len() == 3 && "m4v"@[0] == 'm' && "m4v"@[1] == '4' && "m4v"@[2] == 'v',
        "md"@.len() == 2 && "md"@[0] == 'm' && "md"@[1] == 'd',
        "mkv"@.len() == 3 && "mkv"@[0] == 'm' && "mkv"@[1] == 'k' && "mkv"@[2] == 'v',
        "mov"@.len() == 3 && "mov"@[0] == 'm' && "mov"@[1] == 'o' && "mov"@[2] == 'v',
        "mp3"@.len() == 3 && "mp3"@[0] == 'm' && "mp3"@[1] == 'p' && "mp3"@[2] == '3',
        "mp4"@.len() == 3 && "mp4"@[0] == 'm' && "mp4"@[1] == 'p' && "mp4"@[2] == '4',
        "odt"@.len() == 3 && "odt"@[0] == 'o' && "odt"@[1] == 'd' && "odt"@[2] == 't',
        "ogg"@.len() == 3 && "ogg"@[0] == 'o' && "ogg"@[1] == 'g' && "ogg"@[2] == 'g',
        "pdf"@.len() == 3 && "pdf"@[0] == 'p' && "pdf"@[1] == 'd' && "pdf"@[2] == 'f',
        "php"@.len() == 3 && "php"@[0] == 'p' && "php"@[1] == 'h' && "php"@[2] == 'p',
        "png"@.len() == 3 && "png"@[0] == 'p' && "png"@[1] == 'n' && "png"@[2] == 'g',
        "ppt"@.len() == 3 && "ppt"@[0] == 'p' && "ppt"@[1] == 'p' && "ppt"@[2] == 't',
        "pptx"@.len() == 4 && "pptx"@[0] == 'p' && "pptx"@[1] == 'p' && "pptx"@[2] == 't' && "pptx"@[3] == 'x',
        "py"@.len() == 2 && "py"@[0] == 'p' && "py"@[1] == 'y',
        "rar"@.len() == 3 && "rar"@[0] == 'r' && "rar"@[1] == 'a' && "rar"@[2] == 'r',
        "rb"@.len() == 2 && "rb"@[0] == 'r' && "rb"@[1] == 'b',
        "rs"@.len() == 2 && "rs"@[0] == 'r' && "rs"@[1] == 's',
        "rtf"@.len() == 3 && "rtf"@[0] == 'r' && "rtf"@[1] == 't' && "rtf"@[2] == 'f',
        "sass"@.len() == 4 && "sass"@[0] == 's' && "sass"@[1] == 'a' && "sass"@[2] == 's' && "sass"@[3] == 's',
        "scss"@.len() == 4 && "scss"@[0] == 's' && "scss"@[1] == 'c' && "scss"@[2] == 's' && "scss"@[3] == 's',
        "svg"@.len() == 3 && "svg"@[0] == 's' && "svg"@[1] == 'v' && "svg"@[2] == 'g',
        "swift"@.len() == 5 && "swift"@[0] == 's' && "swift"@[1] == 'w' && "swift"@[2] == 'i' && "swift"@[3] == 'f' && "swift"@[4] == 't',
        "tar"@.len() == 3 && "tar"@[0] == 't' && "tar"@[1] == 'a' && "tar"@[2] == 'r',
        "tif"@.len() == 3 && "tif"@[0] == 't' && "tif"@[1] == 'i' && "tif"@[2] == 'f',
        "tiff"@.len() == 4 && "tiff"@[0] == 't' && "tiff"@[1] == 'i' && "tiff"@[2] == 'f' && "tiff"@[3] == 'f',
        "toml"@.len() == 4 && "toml"@[0] == 't' && "toml"@[1] == 'o' && "toml"@[2] == 'm' && "toml"@[3] == 'l',
        "ts"@.len() == 2 && "ts"@[0] == 't' && "ts"@[1] == 's',
        "txt"@.len() == 3 && "txt"@[0] == 't' && "txt"@[1] == 'x' && "txt"@[2] == 't',
        "wav"@.len() == 3 && "wav"@[0] == 'w' && "wav"@[1] == 'a' && "wav"@[2] == 'v',
        "webm"@.len() == 4 && "webm"@[0] == 'w' && "webm"@[1] == 'e' && "webm"@[2] == 'b' && "webm"@[3] == 'm',
        "webp"@.len() == 4 && "webp"@[0] == 'w' && "webp"@[1] == 'e' && "webp"@[2] == 'b' && "webp"@[3] == 'p',
        "wma"@.len() == 3 && "wma"@[0] == 'w' && "wma"@[1] == 'm' && "wma"@[2] == 'a',
        "wmv"@.len() == 3 && "wmv"@[0] == 'w' && "wmv"@[1] == 'm' && "wmv"@[2] == 'v',
        "xls"@.len() == 3 && "xls"@[0] == 'x' && "xls"@[1] == 'l' && "xls"@[2] == 's',
        "xlsx"@.len() == 4 && "xlsx"@[0] == 'x' && "xlsx"@[1] == 'l' && "xlsx"@[2] == 's' && "xlsx"@[3] == 'x',
        "xml"@.len() == 3 && "xml"@[0] == 'x' && "xml"@[1] == 'm' && "xml"@[2] == 'l',
        "xz"@.len() == 2 && "xz"@[0] == 'x' && "xz"@[1] == 'z',
        "yaml"@.len() == 4 && "yaml"@[0] == 'y' && "yaml"@[1] == 'a' && "yaml"@[2] == 'm' && "yaml"@[3] == 'l',
        "yml"@.len() == 3 && "yml"@[0] == 'y' && "yml"@[1] == 'm' && "yml"@[2] == 'l',
        "zip"@.len() == 3 && "zip"@[0] == 'z' && "zip"@[1] == 'i' && "zip"@[2] == 'p',
{
    reveal_strlit("7z");
    reveal_strlit("aac");
    reveal_strlit("avi");
    reveal_strlit("bmp");
    reveal_strlit("bz2");
    reveal_strlit("c");
    reveal_strlit("cpp");
    reveal_strlit("cs");
    reveal_strlit("css");
    reveal_strlit("doc");
    reveal_strlit("docx");
    reveal_strlit("flac");
    reveal_strlit("flv");
    reveal_strlit("gif");
    reveal_strlit("go");
    reveal_strlit("gz");
    reveal_strlit("h");
    reveal_strlit("hpp");
    reveal_strlit("html");
    reveal_strlit("ico");
    reveal_strlit("java");
    reveal_strlit("jpeg");
    reveal_strlit("jpg");
    reveal_strlit("js");
    reveal_strlit("json");
    reveal_strlit("kt");
    reveal_strlit("less");
    reveal_strlit("m4a");
    reveal_strlit("m4v");
    reveal_strlit("md");
    reveal_strlit("mkv");
    reveal_strlit("mov");
    reveal_strlit("mp3");
    reveal_strlit("mp4");
    reveal_strlit("odt");
    reveal_strlit("ogg");
    reveal_strlit("pdf");
    reveal_strlit("php");
    reveal_strlit("png");
    reveal_strlit("ppt");
    reveal_strlit("pptx");
    reveal_strlit("py");
    reveal_strlit("rar");
    reveal_strlit("rb");
    reveal_strlit("rs");
    reveal_strlit("rtf");
    reveal_strlit("sass");
    reveal_strlit("scss");
    reveal_strlit("svg");
    reveal_strlit("swift");
    reveal_strlit("tar");
    reveal_strlit("tif");
    reveal_strlit("tiff");
    reveal_strlit("toml");
    reveal_strlit("ts");
    reveal_strlit("txt");
    reveal_strlit("wav");
    reveal_strlit("webm");
    reveal_strlit("webp");
    reveal_strlit("wma");
    reveal_strlit("wmv");
    reveal_strlit("xls");
    reveal_strlit("xlsx");
    reveal_strlit("xml");
    reveal_strlit("xz");
    reveal_strlit("yaml");
    reveal_strlit("yml");
    reveal_strlit("zip");
}

proof fn lemma_image_choices(x: Seq<char>)
    ensures
        image_texts().contains(x) <==> (x == "jpg"@ || x == "jpeg"@ || x == "png"@ || x == "gif"@ || x == "webp"@ || x == "svg"@ || x == "bmp"@ || x == "ico"@ || x == "tiff"@ || x == "tif"@),
{
    if image_texts().contains(x) {
        let i = choose|i: int| 0 <= i < image_texts().len() && image_texts()[i] == x;
    }
    if x == "jpg"@ {
        assert(image_texts()[0] == x);
    }
    if x == "jpeg"@ {
        assert(image_texts()[1] == x);
    }
    if x == "png"@ {
        assert(image_texts()[2] == x);
    }
    if x == "gif"@ {
        assert(image_texts()[3] == x);
    }
    if x == "webp"@ {
        assert(image_texts()[4] == x);
    }
    if x == "svg"@ {
        assert(image_texts()[5] == x);
    }
    if x == "bmp"@ {
        assert(image_texts()[6] == x);
    }
    if x == "ico"@ {
        assert(image_texts()[7] == x);
    }
    if x == "tiff"@ {
        assert(image_texts()[8] == x);
    }
    if x == "tif"@ {
        assert(image_texts()[9] == x);
    }
}

proof fn lemma_video_choices(x: Seq<char>)
    ensures
        video_texts().contains(x) <==> (x == "mp4"@ || x == "mkv"@ || x == "avi"@ || x == "mov"@ || x == "wmv"@ || x == "flv"@ || x == "webm"@ || x == "m4v"@),
{
    if video_texts().contains(x) {
        let i = choose|i: int| 0 <= i < video_texts().len() && video_texts()[i] == x;
    }
    if x == "mp4"@ {
        assert(video_texts()[0] == x);
    }
    if x == "mkv"@ {
        assert(video_texts()[1] == x);
    }
    if x == "avi"@ {
        assert(video_texts()[2] == x);
    }
    if x == "mov"@ {
        assert(video_texts()[3] == x);
    }
    if x == "wmv"@ {
        assert(video_texts()[4] == x);
    }
    if x == "flv"@ {
        assert(video_texts()[5] == x);
    }
    if x == "webm"@ {
        assert(video_texts()[6] == x);
    }
    if x == "m4v"@ {
        assert(video_texts()[7] == x);
    }
}

proof fn lemma_audio_choices(x: Seq<char>)
    ensures
        audio_texts().contains(x) <==> (x == "mp3"@ || x == "wav"@ || x == "flac"@ || x == "aac"@ || x == "ogg"@ || x == "wma"@ || x == "m4a"@),
{
    if audio_texts().contains(x) {
        let i = choose|i: int| 0 <= i < audio_texts().len() && audio_texts()[i] == x;
    }
    if x == "mp3"@ {
        assert(audio_texts()[0] == x);
    }
    if x == "wav"@ {
        assert(audio_texts()[1] == x);
    }
    if x == "flac"@ {
        assert(audio_texts()[2] == x);
    }
    if x == "aac"@ {
        assert(audio_texts()[3] == x);
    }
    if x == "ogg"@ {
        assert(audio_texts()[4] == x);
    }
    if x == "wma"@ {
        assert(audio_texts()[5] == x);
    }
    if x == "m4a"@ {
        assert(audio_texts()[6] == x);
    }
}

proof fn lemma_document_choices(x: Seq<char>)
    ensures
        document_texts().contains(x) <==> (x == "pdf"@ || x == "doc"@ || x == "docx"@ || x == "txt"@ || x == "rtf"@ || x == "odt"@ || x == "xls"@ || x == "xlsx"@ || x == "ppt"@ || x == "pptx"@),
{
    if document_texts().contains(x) {
        let i = choose|i: int| 0 <= i < document_texts().len() && document_texts()[i] == x;
    }
    if x == "pdf"@ {
        assert(document_texts()[0] == x);
    }
    if x == "doc"@ {
        assert(document_texts()[1] == x);
    }
    if x == "docx"@ {
        assert(document_texts()[2] == x);
    }
    if x == "txt"@ {
        assert(document_texts()[3] == x);
    }
    if x == "rtf"@ {
        assert(document_texts()[4] == x);
    }
    if x == "odt"@ {
        assert(document_texts()[5] == x);
    }
    if x == "xls"@ {
        assert(document_texts()[6] == x);
    }
    if x == "xlsx"@ {
        assert(document_texts()[7] == x);
    }
    if x == "ppt"@ {
        assert(document_texts()[8] == x);
    }
    if x == "pptx"@ {
        assert(document_texts()[9] == x);
    }
}

proof fn lemma_archive_choices(x: Seq<char>)
    ensures
        archive_texts().contains(x) <==> (x == "zip"@ || x == "tar"@ || x == "gz"@ || x == "rar"@ || x == "7z"@ || x == "bz2"@ || x == "xz"@),
{
    if archive_texts().contains(x) {
        let i = choose|i: int| 0 <= i < archive_texts().len() && archive_texts()[i] == x;
    }
    if x == "zip"@ {
        assert(archive_texts()[0] == x);
    }
    if x == "tar"@ {
        assert(archive_texts()[1] == x);
    }
    if x == "gz"@ {
        assert(archive_texts()[2] == x);
    }
    if x == "rar"@ {
        assert(archive_texts()[3] == x);
    }
    if x == "7z"@ {
        assert(archive_texts()[4] == x);
    }
    if x == "bz2"@ {
        assert(archive_texts()[5] == x);
    }
    if x == "xz"@ {
        assert(archive_texts()[6] == x);
    }
}

proof fn lemma_code_choices(x: Seq<char>)
    ensures
        code_texts().contains(x) <==> (x == "rs"@ || x == "js"@ || x == "ts"@ || x == "py"@ || x == "go"@ || x == "java"@ || x == "c"@ || x == "cpp"@ || x == "h"@ || x == "hpp"@ || x == "cs"@ || x == "rb"@ || x == "php"@ || x == "swift"@ || x == "kt"@),
{
    if code_texts().contains(x) {
        let i = choose|i: int| 0 <= i < code_texts().len() && code_texts()[i] == x;
    }
    if x == "rs"@ {
        assert(code_texts()[0] == x);
    }
    if x == "js"@ {
        assert(code_texts()[1] == x);
    }
    if x == "ts"@ {
        assert(code_texts()[2] == x);
    }
    if x == "py"@ {
        assert(code_texts()[3] == x);
    }
    if x == "go"@ {
        assert(code_texts()[4] == x);
    }
    if x == "java"@ {
        assert(code_texts()[5] == x);
    }
    if x == "c"@ {
        assert(code_texts()[6] == x);
    }
    if x == "cpp"@ {
        assert(code_texts()[7] == x);
    }
    if x == "h"@ {
        assert(code_texts()[8] == x);
    }
    if x == "hpp"@ {
        assert(code_texts()[9] == x);
    }
    if x == "cs"@ {
        assert(code_texts()[10] == x);
    }
    if x == "rb"@ {
        assert(code_texts()[11] == x);
    }
    if x == "php"@ {
        assert(code_texts()[12] == x);
    }
    if x == "swift"@ {
        assert(code_texts()[13] == x);
    }
    if x == "kt"@ {
        assert(code_texts()[14] == x);
    }
}

proof fn lemma_web_choices(x: Seq<char>)
    ensures
        web_texts().contains(x) <==> (x == "html"@ || x == "css"@ || x == "scss"@ || x == "sass"@ || x == "less"@ || x == "json"@ || x == "xml"@ || x == "yaml"@ || x == "yml"@ || x == "toml"@ || x == "md"@),
{
    if web_texts().contains(x) {
        let i = choose|i: int| 0 <= i < web_texts().len() && web_texts()[i] == x;
    }
    if x == "html"@ {
        assert(web_texts()[0] == x);
    }
    if x == "css"@ {
        assert(web_texts()[1] == x);
    }
    if x == "scss"@ {
        assert(web_texts()[2] == x);
    }
    if x == "sass"@ {
        assert(web_texts()[3] == x);
    }
    if x == "less"@ {
        assert(web_texts()[4] == x);
    }
    if x == "json"@ {
        assert(web_texts()[5] == x);
    }
    if x == "xml"@ {
        assert(web_texts()[6] == x);
    }
    if x == "yaml"@ {
        assert(web_texts()[7] == x);
    }
    if x == "yml"@ {
        assert(web_texts()[8] == x);
    }
    if x == "toml"@ {
        assert(web_texts()[9] == x);
    }
    if x == "md"@ {
        assert(web_texts()[10] == x);
    }
}

proof fn lemma_texts_disjoint(x: Seq<char>)
    ensures
        video_texts().contains(x) ==> !image_texts().contains(x),
        audio_texts().contains(x) ==> !image_texts().contains(x),
        audio_texts().contains(x) ==> !video_texts().contains(x),
        document_texts().contains(x) ==> !image_texts().contains(x),
        document_texts().contains(x) ==> !video_texts().contains(x),
        document_texts().contains(x) ==> !audio_texts().contains(x),
        archive_texts().contains(x) ==> !image_texts().contains(x),
        archive_texts().contains(x) ==> !video_texts().contains(x),
        archive_texts().contains(x) ==> !audio_texts().contains(x),
        archive_texts().contains(x) ==> !document_texts().contains(x),
        code_texts().contains(x) ==> !image_texts().contains(x),
        code_texts().contains(x) ==> !video_texts().contains(x),
        code_texts().contains(x) ==> !audio_texts().contains(x),
        code_texts().contains(x) ==> !document_texts().contains(x),
        code_texts().contains(x) ==> !archive_texts().contains(x),
        web_texts().contains(x) ==> !image_texts().contains(x),
        web_texts().contains(x) ==> !video_texts().contains(x),
        web_texts().contains(x) ==> !audio_texts().contains(x),
        web_texts().contains(x) ==> !document_texts().contains(x),
        web_texts().contains(x) ==> !archive_texts().contains(x),
        web_texts().contains(x) ==> !code_texts().contains(x),
{
    lemma_literal_chars();
    lemma_image_choices(x);
    lemma_video_choices(x);
    lemma_audio_choices(x);
    lemma_document_choices(x);
    lemma_archive_choices(x);
    lemma_code_choices(x);
    lemma_web_choices(x);
}

proof fn lemma_category_literal(x: Seq<char>)
    ensures
        seq!["jpg"@, "jpeg"@, "png"@, "gif"@, "webp"@, "svg"@, "bmp"@, "ico"@, "tiff"@, "tif"@].contains(x) ==> extension_category(x) == Some("image"@),
        seq!["mp4"@, "mkv"@, "avi"@, "mov"@, "wmv"@, "flv"@, "webm"@, "m4v"@].contains(x) ==> extension_category(x) == Some("video"@),
        seq!["mp3"@, "wav"@, "flac"@, "aac"@, "ogg"@, "wma"@, "m4a"@].contains(x) ==> extension_category(x) == Some("audio"@),
        seq!["pdf"@, "doc"@, "docx"@, "txt"@, "rtf"@, "odt"@, "xls"@, "xlsx"@, "ppt"@, "pptx"@].contains(x) ==> extension_category(x) == Some("document"@),
        seq!["zip"@, "tar"@, "gz"@, "rar"@, "7z"@, "bz2"@, "xz"@].contains(x) ==> extension_category(x) == Some("archive"@),
        seq!["rs"@, "js"@, "ts"@, "py"@, "go"@, "java"@, "c"@, "cpp"@, "h"@, "hpp"@, "cs"@, "rb"@, "php"@, "swift"@, "kt"@].contains(x) ==> extension_category(x) == Some("code"@),
        seq!["html"@, "css"@, "scss"@, "sass"@, "less"@, "json"@, "xml"@, "yaml"@, "yml"@, "toml"@, "md"@].contains(x) ==> extension_category(x) == Some("web"@),
        !(seq!["jpg"@, "jpeg"@, "png"@, "gif"@, "webp"@, "svg"@, "bmp"@, "ico"@, "tiff"@, "tif"@].contains(x) || seq!["mp4"@, "mkv"@, "avi"@, "mov"@, "wmv"@, "flv"@, "webm"@, "m4v"@].contains(x) || seq!["mp3"@, "wav"@, "flac"@, "aac"@, "ogg"@, "wma"@, "m4a"@].contains(x) || seq!["pdf"@, "doc"@, "docx"@, "txt"@, "rtf"@, "odt"@, "xls"@, "xlsx"@, "ppt"@, "pptx"@].contains(x) || seq!["zip"@, "tar"@, "gz"@, "rar"@, "7z"@, "bz2"@, "xz"@].contains(x) || seq!["rs"@, "js"@, "ts"@, "py"@, "go"@, "java"@, "c"@, "cpp"@, "h"@, "hpp"@, "cs"@, "rb"@, "php"@, "swift"@, "kt"@].contains(x) || seq!["html"@, "css"@, "scss"@, "sass"@, "less"@, "json"@, "xml"@, "yaml"@, "yml"@, "toml"@, "md"@].contains(x)) ==> extension_category(x) is None,
{
    lemma_lists_are_texts(x);
    lemma_texts_disjoint(x);
}

/// The category of a lowercase extension, stated by its literal lists:
/// jpg, jpeg, png, gif, webp, svg, bmp, ico, tiff, tif are images; mp4, mkv,
/// avi, mov, wmv, flv, webm, m4v videos; mp3, wav, flac, aac, ogg, wma, m4a
/// audio; pdf, doc, docx, txt, rtf, odt, xls, xlsx, ppt, pptx documents;
/// zip, tar, gz, rar, 7z, bz2, xz archives; rs, js, ts, py, go, java, c, cpp,
/// h, hpp, cs, rb, php, swift, kt code; html, css, scss, sass, less, json,
/// xml, yaml, yml, toml, md web; any other extension has no category.
pub proof fn lemma_file_type_for_extension_lists(ext: Seq<char>, r: Option<String>)
    requires
        match r {
            Some(s) => extension_category(ext) == Some(s@),
            None => extension_category(ext) is None,
        },
    ensures
        seq!["jpg"@, "jpeg"@, "png"@, "gif"@, "webp"@, "svg"@, "bmp"@, "ico"@, "tiff"@, "tif"@].contains(ext) ==> (r matches Some(s) && s@ == "image"@),
        seq!["mp4"@, "mkv"@, "avi"@, "mov"@, "wmv"@, "flv"@, "webm"@, "m4v"@].contains(ext) ==> (r matches Some(s) && s@ == "video"@),
        seq!["mp3"@, "wav"@, "flac"@, "aac"@, "ogg"@, "wma"@, "m4a"@].contains(ext) ==> (r matches Some(s) && s@ == "audio"@),
        seq!["pdf"@, "doc"@, "docx"@, "txt"@, "rtf"@, "odt"@, "xls"@, "xlsx"@, "ppt"@, "pptx"@].contains(ext) ==> (r matches Some(s) && s@ == "document"@),
        seq!["zip"@, "tar"@, "gz"@, "rar"@, "7z"@, "bz2"@, "xz"@].contains(ext) ==> (r matches Some(s) && s@ == "archive"@),
        seq!["rs"@, "js"@, "ts"@, "py"@, "go"@, "java"@, "c"@, "cpp"@, "h"@, "hpp"@, "cs"@, "rb"@, "php"@, "swift"@, "kt"@].contains(ext) ==> (r matches Some(s) && s@ == "code"@),
        seq!["html"@, "css"@, "scss"@, "sass"@, "less"@, "json"@, "xml"@, "yaml"@, "yml"@, "toml"@, "md"@].contains(ext) ==> (r matches Some(s) && s@ == "web"@),
        !(seq!["jpg"@, "jpeg"@, "png"@, "gif"@, "webp"@, "svg"@, "bmp"@, "ico"@, "tiff"@, "tif"@].contains(ext) || seq!["mp4"@, "mkv"@, "avi"@, "mov"@, "wmv"@, "flv"@, "webm"@, "m4v"@].contains(ext) || seq!["mp3"@, "wav"@, "flac"@, "aac"@, "ogg"@, "wma"@, "m4a"@].contains(ext) || seq!["pdf"@, "doc"@, "docx"@, "txt"@, "rtf"@, "odt"@, "xls"@, "xlsx"@, "ppt"@, "pptx"@].contains(ext) || seq!["zip"@, "tar"@, "gz"@, "rar"@, "7z"@, "bz2"@, "xz"@].contains(ext) || seq!["rs"@, "js"@, "ts"@, "py"@, "go"@, "java"@, "c"@, "cpp"@, "h"@, "hpp"@, "cs"@, "rb"@, "php"@, "swift"@, "kt"@].contains(ext) || seq!["html"@, "css"@, "scss"@, "sass"@, "less"@, "json"@, "xml"@, "yaml"@, "yml"@, "toml"@, "md"@].contains(ext)) ==> r is None,
{
    lemma_category_literal(ext);
}

/// The file type guessed from a name, stated by the literal lists of
/// `lemma_file_type_for_extension_lists` applied to the name's extension,
/// lowercased: a name whose lowercased extension is in a list has that
/// list's type, any other name has none.
pub proof fn lemma_guess_file_type_lists(name: Seq<char>, r: Option<String>)
    requires
        match r {
            Some(s) => guessed_type(name) == Some(s@),
            None => guessed_type(name) is None,
        },
    ensures
        extension_of(name) is None ==> r is None,
        extension_of(name) matches Some(e) ==> (seq!["jpg"@, "jpeg"@, "png"@, "gif"@, "webp"@, "svg"@, "bmp"@, "ico"@, "tiff"@, "tif"@].contains(unicode_lowercase(e)) ==> (r matches Some(s) && s@ == "image"@)),
        extension_of(name) matches Some(e) ==> (seq!["mp4"@, "mkv"@, "avi"@, "mov"@, "wmv"@, "flv"@, "webm"@, "m4v"@].contains(unicode_lowercase(e)) ==> (r matches Some(s) && s@ == "video"@)),
        extension_of(name) matches Some(e) ==> (seq!["mp3"@, "wav"@, "flac"@, "aac"@, "ogg"@, "wma"@, "m4a"@].contains(unicode_lowercase(e)) ==> (r matches Some(s) && s@ == "audio"@)),
        extension_of(name) matches Some(e) ==> (seq!["pdf"@, "doc"@, "docx"@, "txt"@, "rtf"@, "odt"@, "xls"@, "xlsx"@, "ppt"@, "pptx"@].contains(unicode_lowercase(e)) ==> (r matches Some(s) && s@ == "document"@)),
        extension_of(name) matches Some(e) ==> (seq!["zip"@, "tar"@, "gz"@, "rar"@, "7z"@, "bz2"@, "xz"@].contains(unicode_lowercase(e)) ==> (r matches Some(s) && s@ == "archive"@)),
        extension_of(name) matches Some(e) ==> (seq!["rs"@, "js"@, "ts"@, "py"@, "go"@, "java"@, "c"@, "cpp"@, "h"@, "hpp"@, "cs"@, "rb"@, "php"@, "swift"@, "kt"@].contains(unicode_lowercase(e)) ==> (r matches Some(s) && s@ == "code"@)),
        extension_of(name) matches Some(e) ==> (seq!["html"@, "css"@, "scss"@, "sass"@, "less"@, "json"@, "xml"@, "yaml"@, "yml"@, "toml"@, "md"@].contains(unicode_lowercase(e)) ==> (r matches Some(s) && s@ == "web"@)),
        extension_of(name) matches Some(e) ==> (!(seq!["jpg"@, "jpeg"@, "png"@, "gif"@, "webp"@, "svg"@, "bmp"@, "ico"@, "tiff"@, "tif"@].contains(unicode_lowercase(e)) || seq!["mp4"@, "mkv"@, "avi"@, "mov"@, "wmv"@, "flv"@, "webm"@, "m4v"@].contains(unicode_lowercase(e)) || seq!["mp3"@, "wav"@, "flac"@, "aac"@, "ogg"@, "wma"@, "m4a"@].contains(unicode_lowercase(e)) || seq!["pdf"@, "doc"@, "docx"@, "txt"@, "rtf"@, "odt"@, "xls"@, "xlsx"@, "ppt"@, "pptx"@].contains(unicode_lowercase(e)) || seq!["zip"@, "tar"@, "gz"@, "rar"@, "7z"@, "bz2"@, "xz"@].contains(unicode_lowercase(e)) || seq!["rs"@, "js"@, "ts"@, "py"@, "go"@, "java"@, "c"@, "cpp"@, "h"@, "hpp"@, "cs"@, "rb"@, "php"@, "swift"@, "kt"@].contains(unicode_lowercase(e)) || seq!["html"@, "css"@, "scss"@, "sass"@, "less"@, "json"@, "xml"@, "yaml"@, "yml"@, "toml"@, "md"@].contains(unicode_lowercase(e))) ==> r is None),
{
    match extension_of(name) {
        Some(e) => lemma_category_literal(unicode_lowercase(e)),
        None => {},
    }
}

proof fn lemma_years_found_contents(lower: Seq<char>, k: int)
    requires
        0 <= k <= 3,
    ensures
        forall|x: Seq<char>|
            #[trigger] years_found(lower, k).contains(x) <==> (exists|j: int|
                0 <= j < k && year_patterns()[j] == x && contains_text(lower, x)),
    decreases k,
{
    if k > 0 {
        lemma_years_found_contents(lower, k - 1);
        let y = year_patterns()[k - 1];
        assert forall|x: Seq<char>|
            #[trigger] years_found(lower, k).contains(x) <==> (exists|j: int|
                0 <= j < k && year_patterns()[j] == x && contains_text(lower, x)) by {
            let prev = years_found(lower, k - 1);
            if contains_text(lower, y) {
                assert(years_found(lower, k) == prev.push(y));
                if years_found(lower, k).contains(x) {
                    let i = choose|i: int| 0 <= i < prev.push(y).len() && prev.push(y)[i] == x;
                    if i < prev.len() {
                        assert(prev.contains(x));
                    }
                }
                if prev.contains(x) {
                    let i = choose|i: int| 0 <= i < prev.len() && prev[i] == x;
                    assert(prev.push(y)[i] == x);
                }
                if x == y {
                    assert(prev.push(y)[prev.len() as int] == x);
                }
            } else {
                assert(years_found(lower, k) == prev);
            }
            if exists|j: int| 0 <= j < k && year_patterns()[j] == x && contains_text(lower, x) {
                let j = choose|j: int| 0 <= j < k && year_patterns()[j] == x && contains_text(lower, x);
                if j < k - 1 {
                    assert(prev.contains(x));
                }
            }
        }
    }
}

/// Which tags `suggest_tags` gives for a name, stated with the literal
/// year texts and type names: a year tag is one of "2024", "2025", "2026"
/// and occurs in the lowercased file name; every such year is given; the
/// lowercased extension and the guessed type are given; and nothing else:
/// every tag is such a year, the lowercased extension, or one of the type
/// names image, video, audio, document, archive, code, web.
pub proof fn lemma_suggest_tags_contents(name: Seq<char>, tags: Seq<Seq<char>>)
    requires
        forall|x: Seq<char>| tags.contains(x) <==> tag_candidates(name).contains(x),
    ensures
        forall|y: Seq<char>|
            seq!["2024"@, "2025"@, "2026"@].contains(y) && (file_name_of(name) matches Some(f)
                && contains_text(unicode_lowercase(f), y)) ==> #[trigger] tags.contains(y),
        extension_of(name) matches Some(e) ==> tags.contains(unicode_lowercase(e)),
        guessed_type(name) matches Some(t) ==> tags.contains(t),
        forall|x: Seq<char>|
            #[trigger] tags.contains(x) ==> {
                ||| seq!["2024"@, "2025"@, "2026"@].contains(x) && (file_name_of(name) matches Some(f)
                    && contains_text(unicode_lowercase(f), x))
                ||| (extension_of(name) matches Some(e) && x == unicode_lowercase(e))
                ||| seq!["image"@, "video"@, "audio"@, "document"@, "archive"@, "code"@, "web"@].contains(x)
            },
{
    reveal_strlit("2024");
    reveal_strlit("2025");
    reveal_strlit("2026");
    let lower = lower_file_name(name);
    lemma_years_found_contents(lower, 3);
    let years = years_found(lower, 3);
    let ext_part: Seq<Seq<char>> = match extension_of(name) {
        Some(e) => seq![unicode_lowercase(e)],
        None => Seq::empty(),
    };
    let type_part: Seq<Seq<char>> = match guessed_type(name) {
        Some(t) => seq![t],
        None => Seq::empty(),
    };
    let cands = tag_candidates(name);
    assert(cands == years + ext_part + type_part);
    let years_lit = seq!["2024"@, "2025"@, "2026"@];
    let types_lit = seq!["image"@, "video"@, "audio"@, "document"@, "archive"@, "code"@, "web"@];
    assert forall|y: Seq<char>|
        years_lit.contains(y) && (file_name_of(name) matches Some(f) && contains_text(
            unicode_lowercase(f),
            y,
        )) implies #[trigger] tags.contains(y) by {
        let j = choose|j: int| 0 <= j < years_lit.len() && years_lit[j] == y;
        assert(year_patterns()[j] == y);
        assert(years.contains(y));
        let i = choose|i: int| 0 <= i < years.len() && years[i] == y;
        assert(cands[i] == y);
    }
    if let Some(e) = extension_of(name) {
        assert(cands[years.len() as int] == unicode_lowercase(e));
    }
    if let Some(t) = guessed_type(name) {
        assert(cands[(years.len() + ext_part.len()) as int] == t);
    }
    assert forall|x: Seq<char>| #[trigger] tags.contains(x) implies {
        ||| years_lit.contains(x) && (file_name_of(name) matches Some(f) && contains_text(
            unicode_lowercase(f),
            x,
        ))
        ||| (extension_of(name) matches Some(e) && x == unicode_lowercase(e))
        ||| types_lit.contains(x)
    } by {
        assert(cands.contains(x));
        let i = choose|i: int| 0 <= i < cands.len() && cands[i] == x;
        if i < years.len() {
            assert(years.contains(x));
            let j = choose|j: int| 0 <= j < 3 && year_patterns()[j] == x && contains_text(lower, x);
            assert(years_lit[j] == x);
            if file_name_of(name) is None {
                assert(lower.len() == 0);
                let at = choose|at: int| crate::text::occurs_at(lower, x, at);
            }
        } else if i < years.len() + ext_part.len() {
        } else {
            let t = guessed_type(name)->0;
            assert(x == t);
            let e = extension_of(name)->0;
            let c = extension_category(unicode_lowercase(e));
            assert(c == Some(t));
            if t == "image"@ {
                assert(types_lit[0] == x);
            } else if t == "video"@ {
                assert(types_lit[1] == x);
            } else if t == "audio"@ {
                assert(types_lit[2] == x);
            } else if t == "document"@ {
                assert(types_lit[3] == x);
            } else if t == "archive"@ {
                assert(types_lit[4] == x);
            } else if t == "code"@ {
                assert(types_lit[5] == x);
            } else {
                assert(types_lit[6] == x);
            }
        }
    }
}

} // verus!
