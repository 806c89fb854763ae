use gix_fetch::config_tree::{
    Allow, Author, Commit, Committer, Core, Gitoxide, Http, Https, KeyKind, Objects,
    ProtocolFromUser, Ssh, User,
};

#[test]
fn section_names_match_the_configuration_keys() {
    assert_eq!(Gitoxide.name(), "gitoxide");
    assert_eq!(Core.name(), "core");
    assert_eq!(Http.name(), "http");
    assert_eq!(Https.name(), "https");
    assert_eq!(Allow.name(), "allow");
    assert_eq!(Author.name(), "author");
    assert_eq!(User.name(), "user");
    assert_eq!(Ssh.name(), "ssh");
    assert_eq!(Objects.name(), "objects");
    assert_eq!(Committer.name(), "committer");
    assert_eq!(Commit.name(), "commit");
}

#[test]
fn every_sub_section_names_gitoxide_as_parent() {
    assert_eq!(Core.parent_name(), Some("gitoxide"));
    assert_eq!(Http.parent_name(), Some("gitoxide"));
    assert_eq!(Commit.parent_name(), Some("gitoxide"));
}

#[test]
fn gitoxide_lists_its_sub_sections_in_order() {
    let names = Gitoxide.sub_section_names();
    assert_eq!(
        names,
        vec![
            "allow",
            "author",
            "core",
            "commit",
            "committer",
            "http",
            "https",
            "objects",
            "ssh",
            "user"
        ]
    );
}

#[test]
fn http_keys_carry_names_overrides_and_kinds() {
    let keys = Http.keys();
    assert_eq!(keys.len(), 8);
    assert_eq!(keys[0].name, "proxy");
    assert_eq!(keys[0].environment_override, Some("http_proxy"));
    assert_eq!(keys[2].name, "verbose");
    assert_eq!(keys[2].kind, KeyKind::Boolean);
    assert_eq!(keys[4].name, "connectTimeout");
    assert_eq!(keys[4].kind, KeyKind::Duration);
    assert_eq!(keys[7].name, "proxyAuthMethod");
    assert_eq!(keys[7].environment_override, Some("GIT_HTTP_PROXY_AUTHMETHOD"));
}

#[test]
fn shallow_file_key_is_a_path_with_an_override() {
    let keys = Core.keys();
    assert_eq!(keys.len(), 1);
    assert_eq!(keys[0].name, "shallowFile");
    assert_eq!(keys[0].environment_override, Some("GIT_SHALLOW_FILE"));
    assert_eq!(keys[0].kind, KeyKind::Path);
}

#[test]
fn small_sections_list_their_keys() {
    assert_eq!(Gitoxide.keys().len(), 1);
    assert_eq!(Gitoxide.keys()[0].name, "userAgent");
    assert_eq!(Https.keys().len(), 1);
    assert_eq!(Allow.keys().len(), 1);
    assert_eq!(Author.keys().len(), 2);
    assert_eq!(User.keys().len(), 1);
    assert_eq!(Ssh.keys().len(), 1);
    assert_eq!(Objects.keys().len(), 3);
    assert_eq!(Committer.keys().len(), 2);
    assert_eq!(Commit.keys().len(), 0);
}

#[test]
fn protocol_from_user_accepts_only_the_digit_one() {
    assert!(ProtocolFromUser.validate(&b"1".to_vec()).is_ok());
    assert!(ProtocolFromUser.validate(&b"0".to_vec()).is_err());
    assert!(ProtocolFromUser.validate(&b"11".to_vec()).is_err());
    assert!(ProtocolFromUser.validate(&b"".to_vec()).is_err());
}
