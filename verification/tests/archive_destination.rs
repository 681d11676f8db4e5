use pna_cli::command::shared::archive_destination::{
    resolve_create_destination, resolve_transform_destination, ArchiveDestination, ArchiveFileArgs, ArchiveSource,
};

fn file_source() -> ArchiveSource {
    ArchiveSource::File("source.pna".to_string())
}

#[test]
fn create_destination_covers_its_contract_matrix() {
    let file = || Some("archive.pna".to_string());
    let cases = [
        (None, false, Ok(ArchiveDestination::Stdout)),
        (file(), false, Ok(ArchiveDestination::CreateNew("archive.pna".to_string()))),
        (file(), true, Ok(ArchiveDestination::Replace("archive.pna".to_string()))),
        (None, true, Err(())),
    ];

    for (file, overwrite, expected) in cases {
        let actual = resolve_create_destination(file, overwrite);
        match expected {
            Ok(destination) => assert_eq!(actual.unwrap(), destination),
            Err(()) => assert_eq!(
                actual.unwrap_err().to_string(),
                "--overwrite requires --file PATH when creating an archive"
            ),
        }
    }
}

#[test]
fn transform_destination_covers_the_contract_matrix() {
    let output = || Some("output.pna".to_string());
    let cases = [
        (ArchiveSource::Stdin, None, false, Ok(ArchiveDestination::Stdout)),
        (file_source(), None, false, Ok(ArchiveDestination::Stdout)),
        (file_source(), None, true, Ok(ArchiveDestination::InPlace("source.pna".to_string()))),
        (ArchiveSource::Stdin, None, true, Err(())),
        (ArchiveSource::Stdin, output(), false, Ok(ArchiveDestination::CreateNew("output.pna".to_string()))),
        (file_source(), output(), false, Ok(ArchiveDestination::CreateNew("output.pna".to_string()))),
        (ArchiveSource::Stdin, output(), true, Ok(ArchiveDestination::Replace("output.pna".to_string()))),
        (file_source(), output(), true, Ok(ArchiveDestination::Replace("output.pna".to_string()))),
    ];

    for (source, output, overwrite, expected) in cases {
        let actual = resolve_transform_destination(&source, output, overwrite);
        match expected {
            Ok(destination) => assert_eq!(actual.unwrap(), destination),
            Err(()) => assert_eq!(
                actual.unwrap_err().to_string(),
                "--overwrite requires a filesystem destination; specify --output PATH or provide the source with --file"
            ),
        }
    }
}

#[test]
fn destination_is_shown_by_its_path() {
    assert_eq!(ArchiveDestination::Stdout.to_string(), "standard output");
    assert_eq!(ArchiveDestination::InPlace("a.pna".into()).to_string(), "a.pna");
}

#[test]
fn archive_argument_resolves_omission_but_keeps_dash_literal() {
    let omitted = ArchiveFileArgs { file: None };
    assert_eq!(omitted.source(), ArchiveSource::Stdin);
    assert_eq!(
        omitted.require_file().unwrap_err().to_string(),
        "archive input from standard input is not supported by this command yet; specify the archive with --file"
    );

    let dash = ArchiveFileArgs { file: Some("-".to_string()) };
    assert!(matches!(
        dash.source(),
        ArchiveSource::File(path) if path == "-"
    ));
}

#[test]
fn archive_source_from_optional_path() {
    assert_eq!(ArchiveSource::from_path(None), ArchiveSource::Stdin);
    assert_eq!(ArchiveSource::from_path(Some("a.pna".to_string())), ArchiveSource::File("a.pna".to_string()));
    assert_eq!(ArchiveSource::File("x".to_string()).require_file(), Ok("x".to_string()));
}
