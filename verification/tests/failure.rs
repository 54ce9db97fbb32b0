use retrvid::failure::Failure;

#[test]
fn fixed_messages() {
    assert_eq!(Failure::NoDataDir.message(), "unable to retrieve home directory path");
    assert_eq!(Failure::InvalidDataPath.message(), "invalid data path");
    assert_eq!(Failure::DataDirNotText.message(), "data directory path is not Unicode");
    assert_eq!(
        Failure::Usage.message(),
        "only one of NAME, --list, --add and --remove can be given"
    );
    assert_eq!(Failure::Unfaithful.message(), "the ids do not read back as they were written");
    assert_eq!(Failure::AddNotSpecified.message(), "name and id to add not specified");
    assert_eq!(Failure::AddIncomplete.message(), "name and/or id to add not specified");
    assert_eq!(Failure::RemoveNotSpecified.message(), "id to remove not specified");
    assert_eq!(Failure::NameNotSpecified.message(), "no id name specified");
}

#[test]
fn not_found_names_the_id() {
    assert_eq!(Failure::NotFound("work".to_string()).message(), "id `work` not found");
    assert_eq!(Failure::NotFound(String::new()).message(), "id `` not found");
}

#[test]
fn passed_on_messages_are_kept_as_they_are() {
    let text = "permission denied (os error 13)".to_string();
    assert_eq!(Failure::Io(text.clone()).message(), text);
    assert_eq!(Failure::Decode(text.clone()).message(), text);
    assert_eq!(Failure::Encode(text.clone()).message(), text);
    assert_eq!(Failure::Clipboard(text.clone()).message(), text);
}

#[test]
fn report_leads_with_the_word_error() {
    assert_eq!(Failure::NameNotSpecified.report(), "error: no id name specified");
    assert_eq!(Failure::NotFound("work".to_string()).report(), "error: id `work` not found");
    assert_eq!(Failure::Io("disk full".to_string()).report(), "error: disk full");
}
