use gix_fetch::object::{Commit, DecodeError, Kind, Object, Signature, Tag, Time};

fn sample_tag() -> Tag {
    Tag { target: 7, name: b"v1".to_vec(), message: b"first".to_vec() }
}

fn sample_commit() -> Commit {
    Commit { tree: 3, parents: vec![1, 2], message: b"merge".to_vec() }
}

#[test]
fn kind_reflects_the_variant() {
    assert_eq!(Object::Tag(sample_tag()).kind(), Kind::Tag);
    assert_eq!(Object::Commit(sample_commit()).kind(), Kind::Commit);
}

#[test]
fn objects_come_from_their_payloads() {
    assert_eq!(Object::from(sample_tag()), Object::Tag(sample_tag()));
    assert_eq!(Object::from(sample_commit()), Object::Commit(sample_commit()));
}

#[test]
fn try_from_recovers_the_payload_or_returns_the_object() {
    assert_eq!(Tag::try_from(Object::Tag(sample_tag())), Ok(sample_tag()));
    assert_eq!(
        Tag::try_from(Object::Commit(sample_commit())),
        Err(Object::Commit(sample_commit()))
    );
    assert_eq!(Commit::try_from(Object::Commit(sample_commit())), Ok(sample_commit()));
    assert_eq!(Commit::try_from(Object::Tag(sample_tag())), Err(Object::Tag(sample_tag())));
}

#[test]
fn set_parse_context_renames_detail_failures_only() {
    let detail = DecodeError::Detail { input: b"bad".to_vec(), message: "parse error" };
    assert_eq!(
        detail.set_parse_context("tag"),
        DecodeError::Detail { input: b"bad".to_vec(), message: "tag" }
    );
    let other = DecodeError::Rendered { message: b"oops".to_vec() };
    assert_eq!(
        other.set_parse_context("tag"),
        DecodeError::Rendered { message: b"oops".to_vec() }
    );
}

#[test]
fn signatures_compare_by_their_fields() {
    let t = Time { seconds_since_unix_epoch: 1112354053, offset_in_seconds: -3600 };
    let a = Signature { name: b"a".to_vec(), email: b"a@example.com".to_vec(), time: t };
    let b = Signature { name: b"a".to_vec(), email: b"a@example.com".to_vec(), time: t };
    assert_eq!(a, b);
}
