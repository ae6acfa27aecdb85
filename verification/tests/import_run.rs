use keystore_import::error::{ErrorKind, Fault, ImportError};
use keystore_import::import::{summary, Action, Event, Importer, KeyContainer, Outcome};
use keystore_import::model::{Placement, Stage};
use keystore_import::registry::{Definition, Registry};
use std::collections::{BTreeMap, BTreeSet, VecDeque};

/// A container as the world holds it: its metadata and the password that
/// opens it. A container without a public key is not well formed.
#[derive(Clone)]
struct Sealed {
    pubkey: String,
    uuid: String,
    password: String,
    corrupt: bool,
}

/// A disk, an operator and a store for the registry, all in memory.
#[derive(Default)]
struct World {
    files: BTreeMap<String, Sealed>,
    dirs: BTreeSet<String>,
    typed: VecDeque<String>,
    saved: Vec<Definition>,
    trace: Vec<Action>,
    decrypts: Vec<String>,
    asked: Vec<bool>,
    refuse_copy: bool,
    refuse_removal_of: Option<String>,
    vanish_on_refused_removal: bool,
    refuse_removal_of_copy: bool,
    refuse_save: bool,
    refuse_mkdir: bool,
}

fn sealed(pubkey: &str, password: &str) -> Sealed {
    Sealed { pubkey: pubkey.to_string(), uuid: format!("uuid-{}", pubkey), password: password.to_string(), corrupt: false }
}

impl World {
    fn with_file(mut self, path: &str, container: Sealed) -> World {
        self.files.insert(path.to_string(), container);
        self
    }

    fn typing(mut self, lines: &[&str]) -> World {
        self.typed = lines.iter().map(|line| line.to_string()).collect();
        self
    }

    fn perform(&mut self, action: &Action, importer: &Importer) -> Event {
        self.trace.push(action.clone());
        match action {
            Action::Open(path) => {
                if self.files.contains_key(path) {
                    Event::Succeeded
                } else {
                    Event::Failed("No such file or directory".to_string())
                }
            }
            Action::Parse(path) => match self.files.get(path) {
                Some(container) if !container.pubkey.is_empty() => {
                    Event::Parsed(KeyContainer { pubkey: container.pubkey.clone(), uuid: container.uuid.clone() })
                }
                _ => Event::Failed("missing field `pubkey`".to_string()),
            },
            Action::Ask { retry, .. } => {
                self.asked.push(*retry);
                Event::Entered(self.typed.pop_front().unwrap_or_default())
            }
            Action::Decrypt { path, password } => {
                self.decrypts.push(password.clone());
                let container = &self.files[path];
                if container.corrupt {
                    Event::Failed("invalid checksum".to_string())
                } else if &container.password == password {
                    Event::Succeeded
                } else {
                    Event::Rejected
                }
            }
            Action::Probe(path) => Event::Exists(self.dirs.contains(path) || self.files.contains_key(path)),
            Action::CreateDir(path) => {
                if self.refuse_mkdir {
                    Event::Failed("read-only file system".to_string())
                } else {
                    self.dirs.insert(path.clone());
                    Event::Succeeded
                }
            }
            Action::Copy { from, to } => {
                if self.refuse_copy {
                    Event::Failed("no space left on device".to_string())
                } else {
                    let container = self.files[from].clone();
                    self.files.insert(to.clone(), container);
                    Event::Succeeded
                }
            }
            Action::Remove(path) => {
                let is_copy = importer.stage() != Stage::Removing;
                if is_copy && self.refuse_removal_of_copy {
                    Event::Failed("copy is busy".to_string())
                } else if !is_copy && self.refuse_removal_of.as_ref() == Some(path) {
                    if self.vanish_on_refused_removal {
                        self.files.remove(path);
                    }
                    Event::Failed("operation not permitted".to_string())
                } else if self.files.remove(path).is_some() {
                    Event::Succeeded
                } else {
                    Event::Failed("No such file or directory".to_string())
                }
            }
            Action::Save => {
                if self.refuse_save {
                    Event::Failed("disk quota exceeded".to_string())
                } else {
                    self.saved = importer.registry().definitions().clone();
                    Event::Succeeded
                }
            }
            Action::Stop => unreachable!("a driver does not carry out Stop"),
        }
    }
}

fn start(root: &str, registry: Registry, candidates: &[&str]) -> Importer {
    Importer::new(root.to_string(), registry, candidates.iter().map(|path| path.to_string()).collect())
}

fn drive(world: &mut World, importer: &mut Importer) -> Outcome {
    let mut action = importer.pending();
    let mut steps = 0;
    while action != Action::Stop {
        let event = world.perform(&action, importer);
        action = importer.step(event);
        steps += 1;
        assert!(steps < 1000, "the run does not end");
    }
    importer.outcome().expect("a stopped run has an outcome")
}

fn aborted(outcome: &Outcome) -> (usize, Fault, String, String) {
    match outcome {
        Outcome::Aborted { imported, error } => (*imported, error.fault, error.path.clone(), error.cause.clone()),
        Outcome::Completed { .. } => panic!("the run was expected to fail"),
    }
}

#[test]
fn single_container_without_password() {
    let mut world = World::default().with_file("/tmp/in/keystore-0.json", sealed("abc123", "hunter2")).typing(&[""]);
    world.dirs.insert("/tmp/vals".to_string());
    let mut importer = start("/tmp/vals", Registry::new(), &["/tmp/in/keystore-0.json"]);
    let outcome = drive(&mut world, &mut importer);
    assert_eq!(outcome, Outcome::Completed { imported: 1 });
    assert!(world.dirs.contains("/tmp/vals/0xabc123"));
    assert!(world.files.contains_key("/tmp/vals/0xabc123/keystore-0.json"));
    assert!(!world.files.contains_key("/tmp/in/keystore-0.json"));
    assert_eq!(importer.registry().len(), 1);
    let definition = &importer.registry().definitions()[0];
    assert_eq!(definition.identity, "abc123");
    assert_eq!(definition.container_path, "/tmp/vals/0xabc123/keystore-0.json");
    assert_eq!(definition.password, None);
    assert!(definition.enabled);
    assert_eq!(world.saved, importer.registry().definitions().clone());
    assert!(world.decrypts.is_empty());
    assert_eq!(summary(importer.imported()), "Successfully imported 1 validators.");
}

#[test]
fn single_container_action_by_action() {
    let mut importer = start("/tmp/vals", Registry::new(), &["/tmp/in/keystore-0.json"]);
    assert_eq!(importer.stage(), Stage::Opening);
    assert_eq!(importer.pending(), Action::Open("/tmp/in/keystore-0.json".to_string()));
    assert_eq!(importer.step(Event::Succeeded), Action::Parse("/tmp/in/keystore-0.json".to_string()));
    let container = KeyContainer { pubkey: "abc123".to_string(), uuid: "u-1".to_string() };
    assert_eq!(
        importer.step(Event::Parsed(container)),
        Action::Ask { pubkey: "abc123".to_string(), uuid: "u-1".to_string(), retry: false }
    );
    assert_eq!(
        importer.step(Event::Entered("pw".to_string())),
        Action::Decrypt { path: "/tmp/in/keystore-0.json".to_string(), password: "pw".to_string() }
    );
    assert_eq!(importer.step(Event::Succeeded), Action::Probe("/tmp/vals/0xabc123".to_string()));
    assert_eq!(importer.step(Event::Exists(false)), Action::CreateDir("/tmp/vals/0xabc123".to_string()));
    assert_eq!(
        importer.step(Event::Succeeded),
        Action::Copy {
            from: "/tmp/in/keystore-0.json".to_string(),
            to: "/tmp/vals/0xabc123/keystore-0.json".to_string()
        }
    );
    assert_eq!(importer.placement(), Placement::Source);
    assert_eq!(importer.step(Event::Succeeded), Action::Remove("/tmp/in/keystore-0.json".to_string()));
    assert_eq!(importer.placement(), Placement::Both);
    assert_eq!(importer.registry().len(), 0);
    assert_eq!(importer.step(Event::Succeeded), Action::Save);
    assert_eq!(importer.placement(), Placement::Destination);
    assert_eq!(importer.registry().len(), 1);
    assert_eq!(importer.imported(), 0);
    assert_eq!(importer.outcome(), None);
    assert_eq!(importer.step(Event::Succeeded), Action::Stop);
    assert_eq!(importer.stage(), Stage::Finished);
    assert_eq!(importer.imported(), 1);
    assert_eq!(importer.outcome(), Some(Outcome::Completed { imported: 1 }));
    let registry = importer.into_registry();
    assert_eq!(registry.definitions()[0].password, Some("pw".to_string()));
}

#[test]
fn wrong_passwords_are_asked_again() {
    let mut world = World::default()
        .with_file("/in/keystore.json", sealed("aa", "right"))
        .typing(&["wrong", "also wrong", "right"]);
    let mut importer = start("/vals", Registry::new(), &["/in/keystore.json"]);
    let outcome = drive(&mut world, &mut importer);
    assert_eq!(outcome, Outcome::Completed { imported: 1 });
    assert_eq!(world.decrypts, vec!["wrong".to_string(), "also wrong".to_string(), "right".to_string()]);
    assert_eq!(world.asked, vec![false, true, true]);
    assert_eq!(importer.registry().definitions()[0].password, Some("right".to_string()));
}

#[test]
fn empty_input_after_wrong_password_omits_the_password() {
    let mut world = World::default().with_file("/in/keystore.json", sealed("aa", "right")).typing(&["wrong", ""]);
    let mut importer = start("/vals", Registry::new(), &["/in/keystore.json"]);
    assert_eq!(drive(&mut world, &mut importer), Outcome::Completed { imported: 1 });
    assert_eq!(world.decrypts, vec!["wrong".to_string()]);
    assert_eq!(importer.registry().definitions()[0].password, None);
}

#[test]
fn decryption_failure_other_than_wrong_password_is_fatal() {
    let mut container = sealed("aa", "right");
    container.corrupt = true;
    let mut world = World::default().with_file("/in/keystore.json", container).typing(&["right", "right"]);
    let mut importer = start("/vals", Registry::new(), &["/in/keystore.json"]);
    let outcome = drive(&mut world, &mut importer);
    assert_eq!(
        aborted(&outcome),
        (0, Fault::Undecryptable, "/in/keystore.json".to_string(), "invalid checksum".to_string())
    );
    assert_eq!(world.decrypts.len(), 1);
    assert!(world.files.contains_key("/in/keystore.json"));
    assert_eq!(importer.registry().len(), 0);
}

#[test]
fn unreadable_answer_is_fatal() {
    let mut importer = start("/vals", Registry::new(), &["/in/keystore.json"]);
    importer.step(Event::Succeeded);
    importer.step(Event::Parsed(KeyContainer { pubkey: "aa".to_string(), uuid: "u".to_string() }));
    assert_eq!(importer.step(Event::Failed("stdin is closed".to_string())), Action::Stop);
    assert_eq!(
        aborted(&importer.outcome().expect("the run has ended")),
        (0, Fault::Unanswered, String::new(), "stdin is closed".to_string())
    );
}

#[test]
fn missing_candidate_is_reported() {
    let mut world = World::default();
    let mut importer = start("/vals", Registry::new(), &["/in/keystore.json"]);
    let outcome = drive(&mut world, &mut importer);
    assert_eq!(
        aborted(&outcome),
        (0, Fault::Unreadable, "/in/keystore.json".to_string(), "No such file or directory".to_string())
    );
    assert_eq!(world.trace, vec![Action::Open("/in/keystore.json".to_string())]);
}

#[test]
fn malformed_container_is_reported() {
    let mut world = World::default().with_file("/in/keystore.json", sealed("", "pw"));
    let mut importer = start("/vals", Registry::new(), &["/in/keystore.json"]);
    let outcome = drive(&mut world, &mut importer);
    let (imported, fault, path, _) = aborted(&outcome);
    assert_eq!((imported, fault, path.as_str()), (0, Fault::Malformed, "/in/keystore.json"));
    match outcome {
        Outcome::Aborted { error, .. } => assert_eq!(error.kind(), ErrorKind::MalformedContainer),
        Outcome::Completed { .. } => unreachable!(),
    }
}

#[test]
fn existing_destination_is_refused() {
    let mut world = World::default().with_file("/in/keystore.json", sealed("aa", "pw")).typing(&["pw"]);
    world.dirs.insert("/vals/0xaa".to_string());
    let before = world.files.keys().cloned().collect::<Vec<String>>();
    let known = Definition::imported("bb", "/vals/0xbb/keystore.json", None);
    let registry = Registry::from_definitions(vec![known.clone()]).expect("one definition");
    let mut importer = start("/vals", registry, &["/in/keystore.json", "/in/other-keystore.json"]);
    let outcome = drive(&mut world, &mut importer);
    assert_eq!(aborted(&outcome), (0, Fault::AlreadyImported, "/in/keystore.json".to_string(), String::new()));
    assert_eq!(importer.registry().definitions(), &vec![known]);
    assert_eq!(world.files.keys().cloned().collect::<Vec<String>>(), before);
    assert!(world.saved.is_empty());
    assert!(world.trace.iter().all(|action| !matches!(
        action,
        Action::CreateDir(_) | Action::Copy { .. } | Action::Remove(_) | Action::Save
    )));
    assert_eq!(importer.step(Event::Succeeded), Action::Stop);
    assert_eq!(importer.stage(), Stage::Failed);
}

#[test]
fn key_already_in_registry_is_refused() {
    let mut world = World::default().with_file("/in/keystore.json", sealed("aa", "pw")).typing(&[""]);
    let known = Definition::imported("aa", "/elsewhere/keystore.json", None);
    let registry = Registry::from_definitions(vec![known.clone()]).expect("one definition");
    let mut importer = start("/vals", registry, &["/in/keystore.json"]);
    let outcome = drive(&mut world, &mut importer);
    assert_eq!(aborted(&outcome).1, Fault::AlreadyImported);
    assert_eq!(importer.registry().definitions(), &vec![known]);
    assert!(world.files.contains_key("/in/keystore.json"));
    assert!(world.dirs.is_empty());
}

#[test]
fn directory_that_cannot_be_created_is_reported() {
    let mut world = World::default().with_file("/in/keystore.json", sealed("aa", "pw")).typing(&[""]);
    world.refuse_mkdir = true;
    let mut importer = start("/vals", Registry::new(), &["/in/keystore.json"]);
    let outcome = drive(&mut world, &mut importer);
    assert_eq!(
        aborted(&outcome),
        (0, Fault::DirectoryNotCreated, "/vals/0xaa".to_string(), "read-only file system".to_string())
    );
}

#[test]
fn candidate_without_file_name_is_reported() {
    let mut world = World::default().with_file("/in/..", sealed("aa", "pw")).typing(&[""]);
    let mut importer = start("/vals", Registry::new(), &["/in/.."]);
    let outcome = drive(&mut world, &mut importer);
    assert_eq!(aborted(&outcome), (0, Fault::NoFileName, "/in/..".to_string(), String::new()));
    assert!(world.files.contains_key("/in/.."));
}

#[test]
fn failed_copy_is_discarded() {
    let mut world = World::default().with_file("/in/keystore.json", sealed("aa", "pw")).typing(&[""]);
    world.refuse_copy = true;
    let mut importer = start("/vals", Registry::new(), &["/in/keystore.json"]);
    let outcome = drive(&mut world, &mut importer);
    assert_eq!(
        aborted(&outcome),
        (0, Fault::CopyFailed, "/vals/0xaa/keystore.json".to_string(), "no space left on device".to_string())
    );
    assert_eq!(world.trace.last(), Some(&Action::Remove("/vals/0xaa/keystore.json".to_string())));
    assert_eq!(importer.placement(), Placement::Source);
    assert!(world.files.contains_key("/in/keystore.json"));
    assert!(!world.files.contains_key("/vals/0xaa/keystore.json"));
    assert_eq!(importer.registry().len(), 0);
}

#[test]
fn refused_removal_takes_the_copy_back() {
    let mut world = World::default().with_file("/in/keystore.json", sealed("aa", "pw")).typing(&["pw"]);
    world.refuse_removal_of = Some("/in/keystore.json".to_string());
    let mut importer = start("/vals", Registry::new(), &["/in/keystore.json"]);
    let outcome = drive(&mut world, &mut importer);
    assert_eq!(
        aborted(&outcome),
        (0, Fault::RemovalFailed, "/in/keystore.json".to_string(), "operation not permitted".to_string())
    );
    assert_eq!(importer.placement(), Placement::Source);
    assert!(world.files.contains_key("/in/keystore.json"));
    assert!(!world.files.contains_key("/vals/0xaa/keystore.json"));
    assert_eq!(importer.registry().len(), 0);
    assert!(world.saved.is_empty());
}

#[test]
fn copy_that_cannot_be_taken_back_is_reported() {
    let mut world = World::default().with_file("/in/keystore.json", sealed("aa", "pw")).typing(&["pw"]);
    world.refuse_removal_of = Some("/in/keystore.json".to_string());
    world.refuse_removal_of_copy = true;
    let mut importer = start("/vals", Registry::new(), &["/in/keystore.json"]);
    let outcome = drive(&mut world, &mut importer);
    assert_eq!(
        aborted(&outcome),
        (0, Fault::RollbackFailed, "/vals/0xaa/keystore.json".to_string(), "copy is busy".to_string())
    );
    assert_eq!(importer.placement(), Placement::Both);
    assert_eq!(importer.registry().len(), 0);
}

#[test]
fn vanished_original_is_reported_without_rollback() {
    let mut world = World::default().with_file("/in/keystore.json", sealed("aa", "pw")).typing(&["pw"]);
    world.refuse_removal_of = Some("/in/keystore.json".to_string());
    world.vanish_on_refused_removal = true;
    let mut importer = start("/vals", Registry::new(), &["/in/keystore.json"]);
    let outcome = drive(&mut world, &mut importer);
    assert_eq!(
        aborted(&outcome),
        (0, Fault::SourceVanished, "/in/keystore.json".to_string(), "operation not permitted".to_string())
    );
    assert_eq!(importer.placement(), Placement::Destination);
    assert!(world.files.contains_key("/vals/0xaa/keystore.json"));
    assert!(!world.files.contains_key("/in/keystore.json"));
    assert_eq!(importer.registry().len(), 0);
}

#[test]
fn failed_save_leaves_the_file_relocated() {
    let mut world = World::default().with_file("/in/keystore.json", sealed("aa", "pw")).typing(&["pw"]);
    world.refuse_save = true;
    let mut importer = start("/vals", Registry::new(), &["/in/keystore.json"]);
    let outcome = drive(&mut world, &mut importer);
    assert_eq!(aborted(&outcome), (0, Fault::SaveFailed, String::new(), "disk quota exceeded".to_string()));
    match &outcome {
        Outcome::Aborted { error, .. } => assert_eq!(error.kind(), ErrorKind::Registry),
        Outcome::Completed { .. } => unreachable!(),
    }
    assert!(world.files.contains_key("/vals/0xaa/keystore.json"));
    assert!(!world.files.contains_key("/in/keystore.json"));
    assert!(world.saved.is_empty());
    assert_eq!(importer.placement(), Placement::Destination);
}

#[test]
fn batch_imports_every_candidate() {
    let mut world = World::default()
        .with_file("/in/a/keystore.json", sealed("aa", "1"))
        .with_file("/in/b/keystore.json", sealed("bb", "2"))
        .with_file("/in/c/keystore.json", sealed("cc", "3"))
        .typing(&["1", "", "x", "3"]);
    let candidates = ["/in/a/keystore.json", "/in/b/keystore.json", "/in/c/keystore.json"];
    let mut importer = start("/vals", Registry::new(), &candidates);
    let outcome = drive(&mut world, &mut importer);
    assert_eq!(outcome, Outcome::Completed { imported: 3 });
    assert_eq!(summary(3), "Successfully imported 3 validators.");
    let definitions = importer.registry().definitions();
    assert_eq!(definitions.len(), 3);
    let identities: BTreeSet<&str> = definitions.iter().map(|d| d.identity.as_str()).collect();
    assert_eq!(identities.len(), 3);
    for (definition, candidate) in definitions.iter().zip(candidates.iter()) {
        assert!(world.files.contains_key(&definition.container_path));
        assert_eq!(world.files[&definition.container_path].pubkey, definition.identity);
        assert!(!world.files.contains_key(*candidate));
        assert!(definition.enabled);
    }
    assert_eq!(definitions[0].password, Some("1".to_string()));
    assert_eq!(definitions[1].password, None);
    assert_eq!(definitions[2].password, Some("3".to_string()));
    assert_eq!(&world.saved, definitions);
    assert_eq!(world.files.len(), 3);
}

#[test]
fn first_failure_stops_the_batch() {
    let mut world = World::default()
        .with_file("/in/a/keystore.json", sealed("aa", "1"))
        .with_file("/in/b/keystore.json", sealed("", "2"))
        .with_file("/in/c/keystore.json", sealed("cc", "3"))
        .typing(&["1", "2", "3"]);
    let mut importer =
        start("/vals", Registry::new(), &["/in/a/keystore.json", "/in/b/keystore.json", "/in/c/keystore.json"]);
    let outcome = drive(&mut world, &mut importer);
    let (imported, fault, path, _) = aborted(&outcome);
    assert_eq!((imported, fault, path.as_str()), (1, Fault::Malformed, "/in/b/keystore.json"));
    assert_eq!(importer.registry().len(), 1);
    assert_eq!(importer.registry().definitions()[0].identity, "aa");
    assert_eq!(world.saved.len(), 1);
    assert!(world.files.contains_key("/vals/0xaa/keystore.json"));
    assert!(world.files.contains_key("/in/b/keystore.json"));
    assert!(world.files.contains_key("/in/c/keystore.json"));
    assert!(!world.trace.contains(&Action::Open("/in/c/keystore.json".to_string())));
}

#[test]
fn same_key_twice_in_one_batch_is_refused() {
    let mut world = World::default()
        .with_file("/in/a/keystore.json", sealed("aa", "1"))
        .with_file("/in/b/keystore.json", sealed("aa", "1"))
        .typing(&["", ""]);
    let mut importer = start("/vals", Registry::new(), &["/in/a/keystore.json", "/in/b/keystore.json"]);
    let outcome = drive(&mut world, &mut importer);
    assert_eq!(aborted(&outcome), (1, Fault::AlreadyImported, "/in/b/keystore.json".to_string(), String::new()));
    assert_eq!(importer.registry().len(), 1);
    assert!(world.files.contains_key("/in/b/keystore.json"));
}

#[test]
fn no_candidates_is_a_successful_run() {
    let known = Definition::imported("bb", "/vals/0xbb/keystore.json", None);
    let registry = Registry::from_definitions(vec![known.clone()]).expect("one definition");
    let mut world = World::default();
    let mut importer = start("/vals", registry, &[]);
    assert_eq!(importer.stage(), Stage::Finished);
    assert_eq!(importer.pending(), Action::Stop);
    assert_eq!(drive(&mut world, &mut importer), Outcome::Completed { imported: 0 });
    assert!(world.trace.is_empty());
    assert_eq!(importer.registry().definitions(), &vec![known]);
    assert_eq!(summary(0), "Successfully imported 0 validators.");
}

#[test]
fn event_that_answers_nothing_is_ignored() {
    let mut importer = start("/vals", Registry::new(), &["/in/keystore.json"]);
    let open = Action::Open("/in/keystore.json".to_string());
    assert_eq!(importer.step(Event::Rejected), open);
    assert_eq!(importer.step(Event::Exists(true)), open);
    assert_eq!(importer.step(Event::Entered("pw".to_string())), open);
    assert_eq!(importer.stage(), Stage::Opening);
    assert_eq!(importer.step(Event::Succeeded), Action::Parse("/in/keystore.json".to_string()));
    assert_eq!(importer.step(Event::Succeeded), Action::Parse("/in/keystore.json".to_string()));
}

#[test]
fn container_is_never_in_two_places_after_a_run() {
    for refuse_removal in [false, true] {
        for refuse_copy in [false, true] {
            for refuse_save in [false, true] {
                let mut world = World::default().with_file("/in/keystore.json", sealed("aa", "pw")).typing(&["pw"]);
                world.refuse_copy = refuse_copy;
                world.refuse_save = refuse_save;
                if refuse_removal {
                    world.refuse_removal_of = Some("/in/keystore.json".to_string());
                }
                let mut importer = start("/vals", Registry::new(), &["/in/keystore.json"]);
                let outcome = drive(&mut world, &mut importer);
                let at_source = world.files.contains_key("/in/keystore.json");
                let at_destination = world.files.contains_key("/vals/0xaa/keystore.json");
                assert!(at_source != at_destination);
                match outcome {
                    Outcome::Completed { imported } => {
                        assert_eq!(imported, 1);
                        assert!(at_destination);
                    }
                    Outcome::Aborted { .. } => {
                        assert_eq!(importer.placement() == Placement::Source, at_source);
                        assert_eq!(importer.placement() == Placement::Destination, at_destination);
                    }
                }
            }
        }
    }
}

#[test]
fn summary_counts_the_imports() {
    assert_eq!(summary(1), "Successfully imported 1 validators.");
    assert_eq!(summary(12), "Successfully imported 12 validators.");
    assert_eq!(summary(1000), "Successfully imported 1000 validators.");
}

#[test]
fn report_tells_the_three_endings_apart() {
    let error = ImportError::new(Fault::CopyFailed, "/vals/0xaa/keystore.json", "disk full");
    assert_eq!(Outcome::Completed { imported: 2 }.report(), "Successfully imported 2 validators.");
    assert_eq!(
        Outcome::Aborted { imported: 0, error: error.clone() }.report(),
        "Unable to copy keystore: disk full"
    );
    assert_eq!(
        Outcome::Aborted { imported: 2, error }.report(),
        "Successfully imported 2 validators.\nUnable to copy keystore: disk full"
    );
}
