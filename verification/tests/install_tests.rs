use wasupdate::archive::classify_archive_kind;
use wasupdate::archive::file_name;
use wasupdate::install::classify_location;
use wasupdate::install::install_archive;
use wasupdate::install::ArchivePlan;
use wasupdate::install::InstallError;
use wasupdate::install::LocationKind;
use wasupdate::ArchiveKind;

#[test]
fn classification_follows_the_final_segment() {
    assert_eq!(classify_archive_kind("archive.tar.gz"), ArchiveKind::TarGz);
    assert_eq!(classify_archive_kind("archive.tgz"), ArchiveKind::TarGz);
    assert_eq!(classify_archive_kind("archive.zip"), ArchiveKind::Zip);
    assert_eq!(classify_archive_kind("archive.tar"), ArchiveKind::Tar);
    assert_eq!(classify_archive_kind("archive.exe"), ArchiveKind::PlainFile);
    assert_eq!(classify_archive_kind("archive"), ArchiveKind::PlainFile);
}

#[test]
fn classification_ignores_leading_directories() {
    assert_eq!(
        classify_archive_kind("some/dir/tool-2.0.0.zip"),
        ArchiveKind::Zip
    );
    assert_eq!(classify_archive_kind("dir.zip/tool"), ArchiveKind::PlainFile);
    assert_eq!(classify_archive_kind(".zip"), ArchiveKind::PlainFile);
}

#[test]
fn file_name_is_the_final_segment() {
    assert_eq!(file_name("a/b/c.txt"), "c.txt");
    assert_eq!(file_name("c.txt"), "c.txt");
    // trailing separators are dropped first, as the standard path API has it
    assert_eq!(file_name("a/b/"), "b");
    assert_eq!(file_name(""), "");
}

#[test]
fn zip_plan_strips_the_suffix() {
    match install_archive("path/to/tool-2.0.0.zip").unwrap() {
        ArchivePlan::Zip { unroll_dir } => assert_eq!(unroll_dir, "tool-2.0.0"),
        other => panic!("wrong plan: {:?}", other),
    }
}

#[test]
fn tar_plan_strips_the_extension() {
    match install_archive("tool-1.0.tar").unwrap() {
        ArchivePlan::Tar { unroll_dir } => assert_eq!(unroll_dir, "tool-1.0"),
        other => panic!("wrong plan: {:?}", other),
    }
}

#[test]
fn tar_gz_plan_strips_the_double_suffix() {
    match install_archive("tool-1.0.tar.gz").unwrap() {
        ArchivePlan::TarGz { unroll_dir } => assert_eq!(unroll_dir, "tool-1.0"),
        other => panic!("wrong plan: {:?}", other),
    }
}

#[test]
fn tgz_plan_strips_the_short_suffix() {
    match install_archive("tool-1.0.tgz").unwrap() {
        ArchivePlan::TarGz { unroll_dir } => assert_eq!(unroll_dir, "tool-1.0"),
        other => panic!("wrong plan: {:?}", other),
    }
}

#[test]
fn bare_gz_without_either_suffix_is_rejected() {
    match install_archive("tool-1.0.gz").err().unwrap() {
        InstallError::InvalidName { message } => {
            assert_eq!(message, "File name does not end with .tar.gz")
        }
        other => panic!("wrong error: {:?}", other),
    }
}

#[test]
fn plain_file_plan_keeps_the_name() {
    match install_archive("dir/tool").unwrap() {
        ArchivePlan::PlainFile { dest_name } => assert_eq!(dest_name, "tool"),
        other => panic!("wrong plan: {:?}", other),
    }
}

#[test]
fn empty_file_name_is_rejected() {
    match install_archive("").err().unwrap() {
        InstallError::InvalidName { message } => {
            assert_eq!(message, "Provided path has no file name")
        }
        other => panic!("wrong error: {:?}", other),
    }
}

#[test]
fn locations_classify_once() {
    assert_eq!(
        classify_location("whatever", true),
        LocationKind::LocalPath
    );
    assert_eq!(
        classify_location("https://example.com/tool.zip", false),
        LocationKind::RemoteUrl
    );
    assert_eq!(
        classify_location("definitely not a url", false),
        LocationKind::Invalid
    );
}

#[test]
fn invalid_location_message_names_the_location() {
    let e = InstallError::InvalidLocation {
        location: "nowhere".to_string(),
    };
    assert_eq!(
        e.message(),
        "Location at 'nowhere' appears to be an invalid URL and not exist locally."
    );
}

#[test]
fn install_routes_follow_the_location() {
    match wasupdate::install::install("tool-2.0.0.zip", true).unwrap() {
        wasupdate::install::InstallRoute::Local(ArchivePlan::Zip { unroll_dir }) => {
            assert_eq!(unroll_dir, "tool-2.0.0")
        }
        other => panic!("wrong route: {:?}", other),
    }
    assert!(matches!(
        wasupdate::install::install("https://example.com/tool.zip", false).unwrap(),
        wasupdate::install::InstallRoute::Download
    ));
    match wasupdate::install::install("definitely not a url", false)
        .err()
        .unwrap()
    {
        InstallError::InvalidLocation { location } => {
            assert_eq!(location, "definitely not a url")
        }
        other => panic!("wrong error: {:?}", other),
    }
}
