use aktags_cloud::cli::{Cli, Commands};
use aktags_cloud::db::{fts_prefix_query, tag_key};
use aktags_cloud::digest::to_hex;
use aktags_cloud::ids::{new_uuid, uuid_from_random};
use aktags_cloud::net::{IpAddress, SocketAddress};
use aktags_cloud::server::{
    content_disposition, download_file_name, failure_message, upload_file_name, CreateTagRequest, ListFilesQuery,
    SearchQuery, TransferStep,
};
use aktags_cloud::sync::plan_sync;

#[test]
fn fts_query_doubles_quotes_and_matches_prefix() {
    assert_eq!(fts_prefix_query("report"), "report*");
    assert_eq!(fts_prefix_query("a\"b"), "a\"\"b*");
    assert_eq!(fts_prefix_query(""), "*");
    assert_eq!(fts_prefix_query("\"\""), "\"\"\"\"*");
    let q = "my \"quoted\" file";
    assert_eq!(fts_prefix_query(q), format!("{}*", q.replace('"', "\"\"")));
}

#[test]
fn tag_names_are_case_insensitive() {
    assert_eq!(tag_key("ReD"), "red");
    assert_eq!(tag_key("Ärger"), "ärger");
}

#[test]
fn hex_is_lowercase_high_nibble_first() {
    assert_eq!(to_hex(&[0x00, 0x0f, 0xa5, 0xff]), "000fa5ff");
    assert_eq!(to_hex(&[]), "");
}

#[test]
fn uuids_are_fresh() {
    assert_ne!(new_uuid().unwrap(), new_uuid().unwrap());
    assert_eq!(new_uuid().unwrap().len(), 36);
}

#[test]
fn paging_defaults() {
    assert_eq!(ListFilesQuery { limit: None, offset: None }.page(), (50, 0));
    assert_eq!(ListFilesQuery { limit: Some(5), offset: Some(10) }.page(), (5, 10));
    assert_eq!(SearchQuery { q: "x".into(), limit: None, offset: Some(3) }.page(), (50, 3));
}

#[test]
fn tag_color_default() {
    assert_eq!(CreateTagRequest { name: "a".into(), color: None }.color_or_default(), "#6366f1");
    assert_eq!(CreateTagRequest { name: "a".into(), color: Some("#fff".into()) }.color_or_default(), "#fff");
}

#[test]
fn file_names_for_transfer() {
    assert_eq!(upload_file_name(None), "unknown");
    assert_eq!(upload_file_name(Some("a.txt")), "a.txt");
    assert_eq!(download_file_name("/data/storage/x/y.bin", "file"), "y.bin");
    assert_eq!(download_file_name("/", "file"), "file");
    assert_eq!(content_disposition("y.bin"), "attachment; filename=\"y.bin\"");
}

#[test]
fn command_defaults_to_server() {
    let cli = Cli { config: None, port: Some(8080), host: None, command: None };
    assert_eq!(cli.command_to_run(), Commands::Server);
    let cli = Cli { config: Some("/c.toml".into()), port: None, host: None, command: Some(Commands::Sync) };
    assert_eq!(cli.command_to_run(), Commands::Sync);
    assert_eq!(cli.config_path(), "/c.toml");
    let cli = Cli { config: None, port: None, host: None, command: None };
    assert!(cli.config_path().ends_with("config.toml"));
}

#[test]
fn sync_plan_uses_configured_node_and_port() {
    let mut c = aktags_cloud::config::Config::default_for_home("/h").unwrap();
    let p = plan_sync(&c).unwrap();
    assert_eq!(p.node_id.len(), 36);
    assert_eq!(p.listen, None);
    c.sync.enabled = true;
    c.sync.node_id = Some("me".into());
    let p = plan_sync(&c).unwrap();
    assert_eq!(p.node_id, "me");
    assert_eq!(
        p.listen,
        Some(SocketAddress { ip: IpAddress::V4(0, 0, 0, 0), port: 22000, flowinfo: 0, scope_id: 0 })
    );
}

#[test]
fn failure_messages_name_the_step() {
    assert_eq!(failure_message(TransferStep::ReadField, "eof"), "Failed to read field: eof");
    assert_eq!(failure_message(TransferStep::SaveRecord, "busy"), "Failed to save file record: busy");
    assert_eq!(failure_message(TransferStep::CreateDirectory, ""), "Failed to create directory: ");
}

#[test]
fn uuid_from_random_sets_version_and_variant() {
    let b: [u8; 16] = [0, 1, 2, 3, 4, 5, 6, 7, 8, 9, 10, 11, 12, 13, 14, 15];
    assert_eq!(uuid_from_random(b), "00010203-0405-4607-8809-0a0b0c0d0e0f");
    assert_eq!(uuid_from_random([0xff; 16]), "ffffffff-ffff-4fff-bfff-ffffffffffff");
    assert_eq!(uuid_from_random([0; 16]), "00000000-0000-4000-8000-000000000000");
}
