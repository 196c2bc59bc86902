use decrypt_gateway::path::{safe_path, ResourcePath};

fn root() -> ResourcePath {
    ResourcePath::parse(b"/srv/vault").unwrap()
}

fn admitted(resolved: &[u8]) -> bool {
    safe_path(Some(resolved), &root()).is_some()
}

#[test]
fn parse_accepts_canonical_paths() {
    assert!(ResourcePath::parse(b"/").is_some());
    assert!(ResourcePath::parse(b"/a").is_some());
    assert!(ResourcePath::parse(b"/srv/vault/notes.enc").is_some());
    assert!(ResourcePath::parse(b"/...").is_some());
    assert!(ResourcePath::parse(b"/.hidden/..x").is_some());
    assert!(ResourcePath::parse(b"/caf\xc3\xa9/\xff").is_some());
}

#[test]
fn parse_keeps_the_bytes() {
    let path = ResourcePath::parse(b"/srv/vault/notes.enc").unwrap();
    assert_eq!(path.as_bytes(), b"/srv/vault/notes.enc");
    assert_eq!(ResourcePath::parse(b"/").unwrap().as_bytes(), b"/");
}

#[test]
fn parse_refuses_relative_paths() {
    assert!(ResourcePath::parse(b"").is_none());
    assert!(ResourcePath::parse(b"srv/vault").is_none());
    assert!(ResourcePath::parse(b"./srv").is_none());
    assert!(ResourcePath::parse(b"..").is_none());
}

#[test]
fn parse_refuses_empty_names() {
    assert!(ResourcePath::parse(b"//").is_none());
    assert!(ResourcePath::parse(b"/srv/").is_none());
    assert!(ResourcePath::parse(b"/srv//vault").is_none());
    assert!(ResourcePath::parse(b"//srv").is_none());
}

#[test]
fn parse_refuses_dot_names() {
    assert!(ResourcePath::parse(b"/.").is_none());
    assert!(ResourcePath::parse(b"/..").is_none());
    assert!(ResourcePath::parse(b"/srv/./vault").is_none());
    assert!(ResourcePath::parse(b"/srv/vault/..").is_none());
    assert!(ResourcePath::parse(b"/srv/vault/../../etc/passwd").is_none());
}

#[test]
fn parse_refuses_nul() {
    assert!(ResourcePath::parse(b"/srv/va\0ult").is_none());
    assert!(ResourcePath::parse(b"/\0").is_none());
}

#[test]
fn path_below_root_is_within() {
    let root = root();
    assert!(ResourcePath::parse(b"/srv/vault/notes.enc").unwrap().is_within(&root));
    assert!(ResourcePath::parse(b"/srv/vault/a/b/c").unwrap().is_within(&root));
}

#[test]
fn root_is_not_within_itself() {
    let root = root();
    assert!(!ResourcePath::parse(b"/srv/vault").unwrap().is_within(&root));
    let top = ResourcePath::parse(b"/").unwrap();
    assert!(!ResourcePath::parse(b"/").unwrap().is_within(&top));
}

#[test]
fn everything_else_is_within_the_filesystem_root() {
    let top = ResourcePath::parse(b"/").unwrap();
    assert!(ResourcePath::parse(b"/etc").unwrap().is_within(&top));
    assert!(ResourcePath::parse(b"/etc/passwd").unwrap().is_within(&top));
}

#[test]
fn path_outside_root_is_not_within() {
    let root = root();
    assert!(!ResourcePath::parse(b"/").unwrap().is_within(&root));
    assert!(!ResourcePath::parse(b"/srv").unwrap().is_within(&root));
    assert!(!ResourcePath::parse(b"/etc/passwd").unwrap().is_within(&root));
    assert!(!ResourcePath::parse(b"/srv/other/notes.enc").unwrap().is_within(&root));
    assert!(!ResourcePath::parse(b"/vault/srv/notes.enc").unwrap().is_within(&root));
}

#[test]
fn names_are_compared_whole() {
    let root = root();
    assert!(!ResourcePath::parse(b"/srv/vault2/notes.enc").unwrap().is_within(&root));
    assert!(!ResourcePath::parse(b"/srv/vaul/t/notes.enc").unwrap().is_within(&root));
    assert!(!ResourcePath::parse(b"/srv/vault.enc").unwrap().is_within(&root));
    assert!(!ResourcePath::parse(b"/srv/Vault/notes.enc").unwrap().is_within(&root));
}

#[test]
fn safe_path_admits_what_lies_below_the_root() {
    let admitted = safe_path(Some(b"/srv/vault/notes.enc"), &root()).unwrap();
    assert_eq!(admitted.as_bytes(), b"/srv/vault/notes.enc");
    assert_eq!(admitted, ResourcePath::parse(b"/srv/vault/notes.enc").unwrap());
}

#[test]
fn safe_path_refuses_what_was_not_resolved() {
    assert_eq!(safe_path(None, &root()), None);
}

#[test]
fn safe_path_refuses_the_root_and_what_lies_outside() {
    assert!(!admitted(b"/srv/vault"));
    assert!(!admitted(b"/srv"));
    assert!(!admitted(b"/"));
    assert!(!admitted(b"/etc/passwd"));
    assert!(!admitted(b"/srv/vault-backup/notes.enc"));
}

#[test]
fn safe_path_refuses_what_is_not_canonical() {
    assert!(!admitted(b"/srv/vault/../vault/notes.enc"));
    assert!(!admitted(b"/srv/vault/./notes.enc"));
    assert!(!admitted(b"/srv/vault//notes.enc"));
    assert!(!admitted(b"/srv/vault/notes.enc/"));
    assert!(!admitted(b"srv/vault/notes.enc"));
    assert!(!admitted(b"notes.enc"));
    assert!(!admitted(b""));
}
