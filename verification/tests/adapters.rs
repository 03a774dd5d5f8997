use smart_transfer::plugin_api::base::{Plugin, PluginError};
use smart_transfer::plugin_api::compression::CompressionPlugin;
use smart_transfer::plugin_api::files::{FileStore, Node};
use smart_transfer::plugin_api::types::{CompressionMode, CompressionOptions, PluginType};
use smart_transfer::plugins::archive::{
    collect_entries, extract_entries, is_safe_relative, trim_trailing_sep, ArchiveEntry,
};
use smart_transfer::plugin_api::base::PluginFactory;
use smart_transfer::plugins::builtin::{BuiltinFactory, BuiltinKind, BuiltinPlugin};
use smart_transfer::plugins::sevenz::{pack_sevenz, SevenZipPlugin};
use smart_transfer::plugins::template::TemplatePlugin;
use smart_transfer::plugins::zip::{list_zip, pack_zip, ZipPlugin};
use smart_transfer::plugins::zstd::ZstdPlugin;
use smart_transfer::plugins::PluginInstance;

fn s(text: &str) -> String {
    text.to_string()
}

fn file_of<'a>(store: &'a FileStore, path: &str) -> &'a Vec<u8> {
    match store.get(path) {
        Some(Node::File(data)) => data,
        _ => panic!("no file at {}", path),
    }
}

/// Reads a 7z archive with the codec's own reader, as a host does.
fn read_sevenz(bytes: &[u8]) -> Result<Vec<ArchiveEntry>, String> {
    let length = bytes.len() as u64;
    let password = sevenz_rust::Password::empty();
    let mut reader = sevenz_rust::SevenZReader::new(std::io::Cursor::new(bytes), length, password)
        .map_err(|e| e.to_string())?;
    let mut out: Vec<ArchiveEntry> = Vec::new();
    let visited = reader.for_each_entries(|entry, content| {
        let mut data: Vec<u8> = Vec::new();
        std::io::Read::read_to_end(content, &mut data)?;
        out.push(ArchiveEntry { name: entry.name().to_string(), is_dir: entry.is_directory(), data });
        Ok(true)
    });
    visited.map(|_| out).map_err(|e| e.to_string())
}

fn sample_store() -> FileStore {
    let mut store = FileStore::new();
    store.write(s("src/a.txt"), b"alpha alpha alpha".to_vec());
    store.insert(s("src/dirB"), Node::Directory);
    store.write(s("src/dirB/one.txt"), b"one".to_vec());
    store.write(s("src/dirB/deep/two.bin"), vec![0u8, 1, 2, 3, 255]);
    store.write(s("src/dirB/empty"), Vec::new());
    store.write(s("src/dirBother.txt"), b"not below dirB".to_vec());
    store
}

#[test]
fn test_zip_plugin() {
    let plugin = ZipPlugin::new();
    assert_eq!(plugin.get_config().name, "ZIP Plugin");
}

#[test]
fn test_sevenz_plugin() {
    let plugin = SevenZipPlugin::new();
    assert_eq!(plugin.get_config().name, "7-Zip Plugin");
}

#[test]
fn test_plugin_metadata() {
    let plugin = TemplatePlugin::new();
    let metadata = plugin.metadata();
    assert_eq!(metadata.name, "template");
    assert_eq!(metadata.version, "1.0.0");
    assert!(!metadata.description.is_empty());
}

#[test]
fn test_compression_not_implemented() {
    let plugin = TemplatePlugin::new();
    let mut store = FileStore::new();
    let result = plugin.compress(
        &mut store,
        &vec![s("test.txt")],
        &s("test.zip"),
        &CompressionOptions::default(),
    );
    assert!(result.is_err());
}

#[test]
fn test_decompression_not_implemented() {
    let plugin = TemplatePlugin::new();
    let mut store = FileStore::new();
    let result = plugin.decompress(&mut store, &s("test.zip"), &s("output"), true);
    assert!(result.is_err());
}

#[test]
fn default_options_are_normal_and_empty() {
    let options = CompressionOptions::default();
    assert_eq!(options.mode, CompressionMode::Normal);
    assert!(options.password.is_none());
    assert!(options.split_size.is_none());
    assert!(options.level.is_none());
    assert!(options.extra_args.is_empty());
}

#[test]
fn adapters_advertise_their_configuration() {
    let zstd = ZstdPlugin::new();
    assert_eq!(zstd.get_config().name, "zstd");
    assert_eq!(zstd.metadata().name, "Zstandard");
    assert_eq!(zstd.supported_extensions(), vec![s("zst"), s("zstd")]);
    assert_eq!(zstd.default_extension(), "zst");
    let zip = ZipPlugin::new();
    assert_eq!(zip.get_config().version, "1.0.0");
    assert!(zip.get_config().plugin_type.same_as(&PluginType::Compression));
    assert_eq!(zip.metadata().author, "Smart Transfer Team");
    assert!(zip.metadata().platform_support.linux);
    let builtin = BuiltinPlugin::SevenZip(SevenZipPlugin::new());
    assert_eq!(builtin.get_config().name, "7-Zip Plugin");
}

#[test]
fn collect_entries_takes_files_by_name_and_directories_recursively() {
    let store = sample_store();
    let entries = collect_entries(&store, &vec![s("src/a.txt"), s("src/dirB")]).unwrap();
    let names: Vec<&str> = entries.iter().map(|e| e.name.as_str()).collect();
    assert_eq!(names, vec!["a.txt", "dirB/one.txt", "dirB/deep/two.bin", "dirB/empty"]);
    assert_eq!(entries[0].data, b"alpha alpha alpha".to_vec());
    assert_eq!(entries[2].data, vec![0u8, 1, 2, 3, 255]);
    assert!(entries.iter().all(|e| !e.is_dir));
}

#[test]
fn collect_entries_reports_the_first_missing_input() {
    let store = sample_store();
    match collect_entries(&store, &vec![s("src/a.txt"), s("nope"), s("also-nope")]) {
        Err(PluginError::NotFound(path)) => assert_eq!(path, "nope"),
        _ => panic!("expected NotFound"),
    }
    assert!(collect_entries(&store, &vec![]).unwrap().is_empty());
}

#[test]
fn collect_entries_rejects_a_file_without_a_name() {
    let mut store = FileStore::new();
    store.write(s("odd/"), b"x".to_vec());
    match collect_entries(&store, &vec![s("odd/")]) {
        Err(PluginError::InvalidInput(reason)) => assert_eq!(reason, "Invalid file name"),
        _ => panic!("expected InvalidInput"),
    }
}

#[test]
fn zip_round_trip_reproduces_files_at_their_relative_paths() {
    let plugin = ZipPlugin::new();
    let mut store = sample_store();
    plugin
        .compress(
            &mut store,
            &vec![s("src/a.txt"), s("src/dirB")],
            &s("out/archive.zip"),
            &CompressionOptions::default(),
        )
        .unwrap();
    assert!(store.is_file("out/archive.zip"));
    assert!(!file_of(&store, "out/archive.zip").is_empty());
    plugin.decompress(&mut store, &s("out/archive.zip"), &s("dir2"), true).unwrap();
    assert!(store.is_dir("dir2"));
    assert_eq!(file_of(&store, "dir2/a.txt"), &b"alpha alpha alpha".to_vec());
    assert_eq!(file_of(&store, "dir2/dirB/one.txt"), &b"one".to_vec());
    assert_eq!(file_of(&store, "dir2/dirB/deep/two.bin"), &vec![0u8, 1, 2, 3, 255]);
    assert_eq!(file_of(&store, "dir2/dirB/empty"), &Vec::<u8>::new());
    assert!(!store.contains_path("dir2/one.txt"));
    assert!(!store.contains_path("dir2/dirBother.txt"));
}

#[test]
fn zip_pack_and_list_agree() {
    let entries = vec![
        ArchiveEntry { name: s("x.txt"), is_dir: false, data: b"xx".to_vec() },
        ArchiveEntry { name: s("d/y.txt"), is_dir: false, data: b"yyy".to_vec() },
    ];
    let bytes = pack_zip(&entries).unwrap();
    assert_ne!(bytes, b"xx".to_vec());
    assert_eq!(&bytes[0..2], b"PK");
    let listed = list_zip(bytes).unwrap();
    assert_eq!(listed.len(), 2);
    assert_eq!(listed[0].name, "x.txt");
    assert_eq!(listed[0].data, b"xx".to_vec());
    assert_eq!(listed[1].name, "d/y.txt");
    assert_eq!(listed[1].data, b"yyy".to_vec());
    assert!(!listed[1].is_dir);
}

#[test]
fn zip_is_the_same_for_the_same_entries() {
    let entries = vec![ArchiveEntry { name: s("x.txt"), is_dir: false, data: b"xx".to_vec() }];
    assert_eq!(pack_zip(&entries).unwrap(), pack_zip(&entries).unwrap());
}

#[test]
fn zip_rejects_bytes_that_are_no_archive() {
    assert!(matches!(list_zip(b"not a zip".to_vec()), Err(PluginError::ExecutionError(_))));
    let plugin = ZipPlugin::new();
    let mut store = FileStore::new();
    store.write(s("bad.zip"), b"not a zip".to_vec());
    assert!(matches!(
        plugin.decompress(&mut store, &s("bad.zip"), &s("out"), true),
        Err(PluginError::ExecutionError(_))
    ));
    assert!(!store.contains_path("out"));
}

#[test]
fn decompress_of_a_missing_archive_is_not_found() {
    let mut store = FileStore::new();
    store.insert(s("a-directory"), Node::Directory);
    let zip = ZipPlugin::new();
    match zip.decompress(&mut store, &s("missing.zip"), &s("dir"), true) {
        Err(PluginError::NotFound(path)) => assert_eq!(path, "missing.zip"),
        _ => panic!("expected NotFound"),
    }
    let sevenz = SevenZipPlugin::new();
    assert!(matches!(
        sevenz.decompress(&mut store, &s("missing.7z"), &s("dir"), true),
        Err(PluginError::NotFound(_))
    ));
    let zstd = ZstdPlugin::new();
    assert!(matches!(
        zstd.decompress(&mut store, &s("missing.zst"), &s("dir"), true),
        Err(PluginError::NotFound(_))
    ));
    assert!(matches!(
        zstd.decompress(&mut store, &s("a-directory"), &s("dir"), true),
        Err(PluginError::NotFound(_))
    ));
    assert_eq!(store.len(), 1);
}

#[test]
fn compress_of_a_missing_input_is_not_found() {
    let mut store = sample_store();
    let before = store.len();
    let zip = ZipPlugin::new();
    assert!(matches!(
        zip.compress(&mut store, &vec![s("ghost.txt")], &s("o.zip"), &CompressionOptions::default()),
        Err(PluginError::NotFound(_))
    ));
    let zstd = ZstdPlugin::new();
    assert!(matches!(
        zstd.compress(&mut store, &vec![s("ghost.txt")], &s("o.zst"), &CompressionOptions::default()),
        Err(PluginError::NotFound(_))
    ));
    assert_eq!(store.len(), before);
}

#[test]
fn zstd_rejects_anything_but_one_input_file() {
    let plugin = ZstdPlugin::new();
    let mut store = sample_store();
    let options = CompressionOptions::default();
    match plugin.compress(&mut store, &vec![], &s("o.zst"), &options) {
        Err(PluginError::InvalidInput(reason)) => {
            assert_eq!(reason, "Zstd plugin only supports single file compression")
        }
        _ => panic!("expected InvalidInput"),
    }
    assert!(matches!(
        plugin.compress(&mut store, &vec![s("src/a.txt"), s("src/dirB/one.txt")], &s("o.zst"), &options),
        Err(PluginError::InvalidInput(_))
    ));
    assert!(matches!(
        plugin.compress(&mut store, &vec![s("src/dirB")], &s("o.zst"), &options),
        Err(PluginError::InvalidInput(_))
    ));
    assert!(!store.contains_path("o.zst"));
}

#[test]
fn zstd_round_trip_names_the_output_by_the_archive_stem() {
    let plugin = ZstdPlugin::new();
    let mut store = sample_store();
    let mut options = CompressionOptions::default();
    options.level = Some(5);
    plugin.compress(&mut store, &vec![s("src/a.txt")], &s("packed/a.txt.zst"), &options).unwrap();
    let frame = file_of(&store, "packed/a.txt.zst").clone();
    assert_ne!(frame, b"alpha alpha alpha".to_vec());
    assert_eq!(&frame[0..4], &[0x28u8, 0xB5, 0x2F, 0xFD]);
    plugin.decompress(&mut store, &s("packed/a.txt.zst"), &s("plain"), false).unwrap();
    assert_eq!(file_of(&store, "plain/a.txt"), &b"alpha alpha alpha".to_vec());
    assert!(store.is_dir("plain"));
}

#[test]
fn zstd_reports_a_broken_frame_as_execution_error() {
    let plugin = ZstdPlugin::new();
    let mut store = FileStore::new();
    store.write(s("bad.zst"), b"certainly not zstd".to_vec());
    match plugin.decompress(&mut store, &s("bad.zst"), &s("out"), true) {
        Err(PluginError::ExecutionError(detail)) => {
            assert!(detail.starts_with("Failed to decompress data: "));
            assert!(detail.len() > "Failed to decompress data: ".len());
        }
        _ => panic!("expected ExecutionError"),
    }
    assert_eq!(store.len(), 1);
}

#[test]
fn zstd_store_functions_turn_codec_errors_into_execution_errors() {
    let mut store = FileStore::new();
    match ZstdPlugin::store_frame(&mut store, &s("o.zst"), Err(s("boom"))) {
        Err(PluginError::ExecutionError(detail)) => {
            assert_eq!(detail, "Failed to compress data: boom")
        }
        _ => panic!("expected ExecutionError"),
    }
    ZstdPlugin::store_frame(&mut store, &s("o.zst"), Ok(vec![1u8, 2])).unwrap();
    assert_eq!(file_of(&store, "o.zst"), &vec![1u8, 2]);
    match ZstdPlugin::store_plain(&mut store, &s("dir/"), &s("out"), true, Ok(vec![7u8])) {
        Err(PluginError::InvalidInput(reason)) => assert_eq!(reason, "Invalid archive name"),
        _ => panic!("expected InvalidInput"),
    }
    ZstdPlugin::store_plain(&mut store, &s("in/data.tar.zst"), &s("out"), true, Ok(vec![7u8]))
        .unwrap();
    assert_eq!(file_of(&store, "out/data.tar"), &vec![7u8]);
}

#[test]
fn sevenz_round_trip_reproduces_files_at_their_relative_paths() {
    let plugin = SevenZipPlugin::new();
    let mut store = sample_store();
    plugin
        .compress(
            &mut store,
            &vec![s("src/a.txt"), s("src/dirB")],
            &s("archive.7z"),
            &CompressionOptions::default(),
        )
        .unwrap();
    let archive = file_of(&store, "archive.7z").clone();
    assert_eq!(&archive[0..2], b"7z");
    let listed = read_sevenz(&archive);
    plugin.decompress_listed(&mut store, &s("archive.7z"), &s("dir2"), true, listed).unwrap();
    assert!(store.is_dir("dir2"));
    assert_eq!(file_of(&store, "dir2/a.txt"), &b"alpha alpha alpha".to_vec());
    assert_eq!(file_of(&store, "dir2/dirB/one.txt"), &b"one".to_vec());
    assert_eq!(file_of(&store, "dir2/dirB/deep/two.bin"), &vec![0u8, 1, 2, 3, 255]);
    assert_eq!(file_of(&store, "dir2/dirB/empty"), &Vec::<u8>::new());
    assert!(!store.contains_path("dir2/one.txt"));
}

#[test]
fn sevenz_leaves_an_archive_unread_without_its_entries() {
    let plugin = SevenZipPlugin::new();
    let mut store = FileStore::new();
    store.write(s("some.7z"), b"7z".to_vec());
    assert!(matches!(
        plugin.decompress(&mut store, &s("some.7z"), &s("out"), true),
        Err(PluginError::NotImplemented)
    ));
    assert_eq!(store.len(), 1);
    match plugin.decompress_listed(&mut store, &s("gone.7z"), &s("out"), true, Ok(Vec::new())) {
        Err(PluginError::NotFound(path)) => assert_eq!(path, "gone.7z"),
        _ => panic!("expected NotFound"),
    }
    plugin.decompress_listed(&mut store, &s("some.7z"), &s("out"), false, Ok(Vec::new())).unwrap();
    assert!(store.is_dir("out"));
    assert_eq!(store.len(), 2);
}

#[test]
fn sevenz_rejects_bytes_that_are_no_archive() {
    let plugin = SevenZipPlugin::new();
    let mut store = FileStore::new();
    store.write(s("bad.7z"), b"not a 7z archive at all, just some text".to_vec());
    let listed = read_sevenz(file_of(&store, "bad.7z"));
    assert!(listed.is_err());
    match plugin.decompress_listed(&mut store, &s("bad.7z"), &s("out"), true, Err(s("Bad signature"))) {
        Err(PluginError::ExecutionError(detail)) => assert_eq!(detail, "Bad signature"),
        _ => panic!("expected ExecutionError"),
    }
    assert!(!store.contains_path("out"));
}

#[test]
fn extraction_without_overwrite_stops_at_an_existing_destination() {
    let mut store = FileStore::new();
    store.write(s("out/b.txt"), b"old".to_vec());
    let entries = vec![
        ArchiveEntry { name: s("a.txt"), is_dir: false, data: b"A".to_vec() },
        ArchiveEntry { name: s("b.txt"), is_dir: false, data: b"B".to_vec() },
        ArchiveEntry { name: s("c.txt"), is_dir: false, data: b"C".to_vec() },
    ];
    match extract_entries(&mut store, &entries, "out", false) {
        Err(PluginError::AlreadyExists(path)) => assert_eq!(path, "out/b.txt"),
        _ => panic!("expected AlreadyExists"),
    }
    assert_eq!(file_of(&store, "out/a.txt"), &b"A".to_vec());
    assert_eq!(file_of(&store, "out/b.txt"), &b"old".to_vec());
    assert!(!store.contains_path("out/c.txt"));
    extract_entries(&mut store, &entries, "out", true).unwrap();
    assert_eq!(file_of(&store, "out/b.txt"), &b"B".to_vec());
    assert_eq!(file_of(&store, "out/c.txt"), &b"C".to_vec());
}

#[test]
fn extraction_skips_names_that_leave_the_directory() {
    let mut store = FileStore::new();
    let entries = vec![
        ArchiveEntry { name: s("../evil"), is_dir: false, data: b"x".to_vec() },
        ArchiveEntry { name: s("/abs"), is_dir: false, data: b"x".to_vec() },
        ArchiveEntry { name: s("a/../../b"), is_dir: false, data: b"x".to_vec() },
        ArchiveEntry { name: s("sub/"), is_dir: true, data: Vec::new() },
        ArchiveEntry { name: s("ok..txt"), is_dir: false, data: b"fine".to_vec() },
    ];
    extract_entries(&mut store, &entries, "out", true).unwrap();
    assert_eq!(store.len(), 2);
    assert!(store.is_dir("out/sub"));
    assert_eq!(file_of(&store, "out/ok..txt"), &b"fine".to_vec());
}

#[test]
fn safe_relative_names() {
    assert!(is_safe_relative("a/b.txt"));
    assert!(is_safe_relative("..a/b.."));
    assert!(!is_safe_relative(""));
    assert!(!is_safe_relative("/a"));
    assert!(!is_safe_relative(".."));
    assert!(!is_safe_relative("a/.."));
    assert!(!is_safe_relative("a/../b"));
    assert_eq!(trim_trailing_sep("dir/"), "dir");
    assert_eq!(trim_trailing_sep("dir"), "dir");
    assert_eq!(trim_trailing_sep(""), "");
}

#[test]
fn instance_passes_compression_on_to_a_compression_plugin() {
    let instance = PluginInstance::new(BuiltinPlugin::Zip(ZipPlugin::new()));
    assert!(instance.as_compression_plugin().is_some());
    let mut store = sample_store();
    instance
        .compress(&mut store, &vec![s("src/a.txt")], &s("a.zip"), &CompressionOptions::default())
        .unwrap();
    instance.decompress(&mut store, &s("a.zip"), &s("back"), false).unwrap();
    assert_eq!(file_of(&store, "back/a.txt"), &b"alpha alpha alpha".to_vec());
    match instance.decompress(&mut store, &s("a.zip"), &s("back"), false) {
        Err(PluginError::AlreadyExists(path)) => assert_eq!(path, "back/a.txt"),
        _ => panic!("expected AlreadyExists"),
    }
}

#[test]
fn file_store_replaces_in_place_and_appends_new_paths() {
    let mut store = FileStore::new();
    assert_eq!(store.len(), 0);
    store.write(s("a"), vec![1u8]);
    store.write(s("b"), vec![2u8]);
    store.write(s("a"), vec![3u8]);
    assert_eq!(store.len(), 2);
    assert_eq!(store.path_at(0), "a");
    assert_eq!(file_of(&store, "a"), &vec![3u8]);
    assert!(matches!(store.node_at(1), Node::File(_)));
    assert!(store.is_file("b"));
    assert!(!store.is_dir("b"));
    assert!(store.get("c").is_none());
}

#[test]
fn zip_of_no_inputs_is_an_empty_archive() {
    let plugin = ZipPlugin::new();
    let mut store = FileStore::new();
    plugin.compress(&mut store, &vec![], &s("empty.zip"), &CompressionOptions::default()).unwrap();
    assert!(store.is_file("empty.zip"));
    plugin.decompress(&mut store, &s("empty.zip"), &s("out"), false).unwrap();
    assert_eq!(store.len(), 2);
    assert!(store.is_dir("out"));
}

#[test]
fn decompress_into_a_path_that_is_a_file_is_refused() {
    let plugin = ZipPlugin::new();
    let mut store = sample_store();
    plugin
        .compress(&mut store, &vec![s("src/a.txt")], &s("a.zip"), &CompressionOptions::default())
        .unwrap();
    match plugin.decompress(&mut store, &s("a.zip"), &s("src/a.txt"), true) {
        Err(PluginError::AlreadyExists(path)) => assert_eq!(path, "src/a.txt"),
        _ => panic!("expected AlreadyExists"),
    }
    assert_eq!(file_of(&store, "src/a.txt"), &b"alpha alpha alpha".to_vec());
}

#[test]
fn later_inputs_with_the_same_name_win_on_extraction() {
    let plugin = ZipPlugin::new();
    let mut store = FileStore::new();
    store.write(s("x/a.txt"), b"first".to_vec());
    store.write(s("y/a.txt"), b"second".to_vec());
    let entries = collect_entries(&store, &vec![s("x/a.txt"), s("y/a.txt")]).unwrap();
    assert_eq!(entries.len(), 2);
    extract_entries(&mut store, &entries, "out", true).unwrap();
    assert_eq!(file_of(&store, "out/a.txt"), &b"second".to_vec());
    assert!(plugin.get_config().plugin_type.same_as(&PluginType::Compression));
}

#[test]
fn sevenz_pack_and_list_agree() {
    let entries = vec![
        ArchiveEntry { name: s("x.txt"), is_dir: false, data: b"xx".to_vec() },
        ArchiveEntry { name: s("d/y.txt"), is_dir: false, data: b"yyy".to_vec() },
    ];
    let bytes = pack_sevenz(&entries).unwrap();
    assert_eq!(bytes, pack_sevenz(&entries).unwrap());
    assert_ne!(bytes, b"xx".to_vec());
    let listed = read_sevenz(&bytes).unwrap();
    assert_eq!(listed.len(), 2);
    assert_eq!(listed[0].name, "x.txt");
    assert_eq!(listed[0].data, b"xx".to_vec());
    assert_eq!(listed[1].name, "d/y.txt");
    assert_eq!(listed[1].data, b"yyy".to_vec());
}

#[test]
fn zstd_gives_the_same_frame_for_the_same_input() {
    let plugin = ZstdPlugin::new();
    let mut first = sample_store();
    let mut second = sample_store();
    let options = CompressionOptions::default();
    plugin.compress(&mut first, &vec![s("src/a.txt")], &s("a.zst"), &options).unwrap();
    plugin.compress(&mut second, &vec![s("src/a.txt")], &s("a.zst"), &options).unwrap();
    assert_eq!(file_of(&first, "a.zst"), file_of(&second, "a.zst"));
}

#[test]
fn factories_make_the_plugin_of_their_kind() {
    let made = BuiltinFactory { kind: BuiltinKind::Zstd }.create().unwrap();
    assert!(matches!(made, BuiltinPlugin::Zstd(_)));
    assert_eq!(made.get_config().name, "zstd");
    let zip = BuiltinFactory { kind: BuiltinKind::Zip }.create().unwrap();
    assert_eq!(zip.get_config().name, "ZIP Plugin");
    let sevenz = BuiltinFactory { kind: BuiltinKind::SevenZip }.create().unwrap();
    assert_eq!(sevenz.get_config().name, "7-Zip Plugin");
    let template = BuiltinFactory { kind: BuiltinKind::Template }.create().unwrap();
    assert_eq!(template.metadata().name, "template");
}

#[test]
fn zip_directory_members_become_directories() {
    let mut writer = zip::ZipWriter::new(std::io::Cursor::new(Vec::new()));
    let options = zip::write::FileOptions::default();
    writer.add_directory("sub", options).unwrap();
    writer.start_file("sub/inner.txt", options).unwrap();
    std::io::Write::write_all(&mut writer, b"inner").unwrap();
    let bytes = writer.finish().unwrap().into_inner();
    let listed = list_zip(bytes.clone()).unwrap();
    assert_eq!(listed.len(), 2);
    assert_eq!(listed[0].name, "sub/");
    assert!(listed[0].is_dir);
    assert!(listed[0].data.is_empty());
    assert!(!listed[1].is_dir);
    let plugin = ZipPlugin::new();
    let mut store = FileStore::new();
    store.write(s("foreign.zip"), bytes);
    plugin.decompress(&mut store, &s("foreign.zip"), &s("out"), false).unwrap();
    assert!(store.is_dir("out/sub"));
    assert_eq!(file_of(&store, "out/sub/inner.txt"), &b"inner".to_vec());
}

#[test]
fn a_directory_keeps_its_name_in_the_archive() {
    let mut store = FileStore::new();
    store.write(s("/w/a.txt"), b"A".to_vec());
    store.insert(s("/w/dirB"), Node::Directory);
    store.write(s("/w/dirB/a.txt"), b"B".to_vec());
    let inputs = vec![s("/w/a.txt"), s("/w/dirB")];
    let entries = collect_entries(&store, &inputs).unwrap();
    assert_eq!(entries.len(), 2);
    assert_eq!(entries[0].name, "a.txt");
    assert_eq!(entries[0].data, b"A".to_vec());
    assert_eq!(entries[1].name, "dirB/a.txt");
    assert_eq!(entries[1].data, b"B".to_vec());
    let plugin = ZipPlugin::new();
    plugin.compress(&mut store, &inputs, &s("/w/o.zip"), &CompressionOptions::default()).unwrap();
    let listed = list_zip(file_of(&store, "/w/o.zip").clone()).unwrap();
    assert_eq!(listed.len(), 2);
    assert_eq!(listed[0].name, "a.txt");
    assert_eq!(listed[1].name, "dirB/a.txt");
    plugin.decompress(&mut store, &s("/w/o.zip"), &s("/w/dir2"), true).unwrap();
    assert_eq!(file_of(&store, "/w/dir2/a.txt"), &b"A".to_vec());
    assert_eq!(file_of(&store, "/w/dir2/dirB/a.txt"), &b"B".to_vec());
}

#[test]
fn a_directory_without_a_name_is_refused() {
    let mut store = FileStore::new();
    store.insert(s("odd/"), Node::Directory);
    store.write(s("odd//x"), b"x".to_vec());
    match collect_entries(&store, &vec![s("odd/")]) {
        Err(PluginError::InvalidInput(reason)) => assert_eq!(reason, "Invalid file name"),
        _ => panic!("expected InvalidInput"),
    }
}
