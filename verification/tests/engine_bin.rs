//! Which engine is run.
use std::collections::BTreeMap;

use logweir::drill::step::Step;
use logweir::engine_bin::{
    find_on_path, is_executable, resolve, EngineQuestion, EngineReads, FileFacts, ENGINE_NAME,
    REPO_LOCAL, WELL_KNOWN,
};

/// The files that are there.
struct Files(BTreeMap<Vec<u8>, FileFacts>);

impl Files {
    fn none() -> Self {
        Files(BTreeMap::new())
    }

    fn write(&mut self, path: &str, mode: u32) {
        self.0.insert(
            path.as_bytes().to_vec(),
            FileFacts {
                is_file: true,
                mode,
            },
        );
    }

    fn exe_in(&mut self, dir: &str) -> Vec<u8> {
        let path = format!("{dir}/{ENGINE_NAME}");
        self.write(&path, 0o755);
        path.into_bytes()
    }

    fn look(&self, path: &[u8]) -> Option<FileFacts> {
        self.0.get(path).copied()
    }

    fn find(&self, path_var: &[u8], name: &str) -> Option<Vec<u8>> {
        let mut looked = Vec::new();
        loop {
            match find_on_path(&path_var.to_vec(), name, &looked) {
                Step::Done(r) => return r,
                Step::Ask(p) => looked.push(self.look(&p)),
            }
        }
    }

    fn engine(&self, named: Option<&str>, path_var: Option<&[u8]>) -> Vec<u8> {
        let mut reads = EngineReads {
            repo_local: None,
            well_known: None,
            looked: Vec::new(),
        };
        let named = named.map(|n| n.as_bytes().to_vec());
        let path = path_var.map(<[u8]>::to_vec);
        loop {
            match resolve(&named, &path, &reads) {
                Step::Done(r) => return r,
                Step::Ask(EngineQuestion::Exists(p)) => {
                    let there = self.look(&p).is_some();
                    if p == REPO_LOCAL.as_bytes() {
                        reads.repo_local = Some(there);
                    } else {
                        assert_eq!(p, WELL_KNOWN.as_bytes());
                        reads.well_known = Some(there);
                    }
                }
                Step::Ask(EngineQuestion::Look(p)) => reads.looked.push(self.look(&p)),
            }
        }
    }
}

#[test]
fn find_on_path_resolves_a_bare_name_through_path_entries_in_order() {
    let mut files = Files::none();
    let exe = files.exe_in("/tmp/bin");
    assert_eq!(files.find(b"/tmp/empty:/tmp/bin", ENGINE_NAME), Some(exe));
}

#[test]
fn find_on_path_skips_a_non_executable_candidate() {
    let mut files = Files::none();
    files.write("/tmp/dir/kafka-backup", 0o644);
    assert_eq!(files.find(b"/tmp/dir", ENGINE_NAME), None);
}

#[test]
fn find_on_path_returns_none_when_nothing_matches() {
    assert_eq!(Files::none().find(b"/tmp/dir", ENGINE_NAME), None);
}

#[test]
fn an_engine_installed_only_on_path_resolves_to_the_file_on_path() {
    let mut files = Files::none();
    let exe = files.exe_in("/tmp/bin");
    let got = files.engine(None, Some(b"/tmp/bin"));
    assert_eq!(
        got, exe,
        "an engine on $PATH must resolve to it; `{REPO_LOCAL}` is no $PATH lookup at all"
    );
}

#[test]
fn an_explicit_override_wins_over_everything_including_path() {
    let mut files = Files::none();
    files.exe_in("/tmp/bin");
    files.write(REPO_LOCAL, 0o755);
    assert_eq!(
        files.engine(Some("/opt/custom/kafka-backup"), Some(b"/tmp/bin")),
        b"/opt/custom/kafka-backup".to_vec()
    );
}

#[test]
fn an_empty_override_falls_through_rather_than_resolving_to_nothing() {
    let mut files = Files::none();
    let exe = files.exe_in("/tmp/bin");
    assert_eq!(files.engine(Some(""), Some(b"/tmp/bin")), exe);
}

#[test]
fn nothing_anywhere_yields_the_bare_name_so_the_message_can_say_what_was_sought() {
    assert_eq!(
        Files::none().engine(None, Some(b"/tmp/empty")),
        ENGINE_NAME.as_bytes().to_vec()
    );
    assert_eq!(Files::none().engine(None, None), ENGINE_NAME.as_bytes().to_vec());
}

#[test]
fn a_checkout_comes_before_an_image_and_an_image_before_the_search_path() {
    let mut files = Files::none();
    files.exe_in("/tmp/bin");
    files.write(WELL_KNOWN, 0o644);
    assert_eq!(
        files.engine(None, Some(b"/tmp/bin")),
        WELL_KNOWN.as_bytes().to_vec()
    );
    files.write(REPO_LOCAL, 0o644);
    assert_eq!(
        files.engine(None, Some(b"/tmp/bin")),
        REPO_LOCAL.as_bytes().to_vec()
    );
}

#[test]
fn a_candidate_is_put_together_as_a_path_is() {
    let asks = |path: &[u8], name: &str| match find_on_path(&path.to_vec(), name, &Vec::new()) {
        Step::Ask(p) => String::from_utf8(p).unwrap(),
        other => panic!("{other:?}"),
    };
    assert_eq!(asks(b"/a", "x"), "/a/x");
    assert_eq!(asks(b"/a/", "x"), "/a/x");
    assert_eq!(asks(b"", "x"), "x");
    assert_eq!(asks(b":/a", "x"), "x");
    assert_eq!(asks(b"/a", "/x"), "/x");
}

#[test]
fn only_a_plain_file_that_someone_may_run_can_be_run() {
    assert!(is_executable(Some(FileFacts { is_file: true, mode: 0o001 })));
    assert!(is_executable(Some(FileFacts { is_file: true, mode: 0o100 })));
    assert!(!is_executable(Some(FileFacts { is_file: true, mode: 0o666 })));
    assert!(!is_executable(Some(FileFacts { is_file: false, mode: 0o755 })));
    assert!(!is_executable(None));
}
