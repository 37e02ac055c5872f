use hashorg::discovery::{discover, fingerprint_pattern, is_candidate, select_candidates, Mode};
use hashorg::fingerprint::{fingerprint, target_name};
use hashorg::naming::{canonical_name, extension, find_last_dot, same_name, stem, to_lower_hex};
use hashorg::organiser::{survivor_time, Action, Event, FileTask, OrganiseError, Outcome, Phase};

const EMPTY_MD5: &str = "d41d8cd98f00b204e9800998ecf8427e";

fn b(s: &str) -> Vec<u8> {
    s.as_bytes().to_vec()
}

fn run_to_target(name: &str, contents: &[u8]) -> (FileTask, Action) {
    let (mut task, first) = FileTask::new(&b(name));
    assert!(matches!(first, Action::ReadContents));
    let next = task.step(Event::ContentsRead(contents.to_vec()));
    (task, next)
}

#[test]
fn fingerprint_of_empty_contents() {
    assert_eq!(fingerprint(&Vec::new()), b(EMPTY_MD5));
}

#[test]
fn fingerprint_of_abc() {
    assert_eq!(fingerprint(&b("abc")), b("900150983cd24fb0d6963f7d28e17f72"));
}

#[test]
fn lower_hex_digits() {
    assert_eq!(to_lower_hex(&vec![0x00, 0x0f, 0xa5, 0xff]), b("000fa5ff"));
    assert_eq!(to_lower_hex(&Vec::new()), Vec::<u8>::new());
}

#[test]
fn stems_and_extensions() {
    assert_eq!(stem(&b("report.pdf")), b("report"));
    assert_eq!(extension(&b("report.pdf")), b("pdf"));
    assert_eq!(stem(&b("archive.tar.gz")), b("archive.tar"));
    assert_eq!(extension(&b("archive.tar.gz")), b("gz"));
    assert_eq!(stem(&b(".bashrc")), b(".bashrc"));
    assert_eq!(extension(&b(".bashrc")), Vec::<u8>::new());
    assert_eq!(stem(&b("notes.")), b("notes"));
    assert_eq!(extension(&b("notes.")), Vec::<u8>::new());
    assert_eq!(stem(&b("LICENSE")), b("LICENSE"));
    assert_eq!(stem(&b("..")), b(".."));
    assert_eq!(extension(&b("..")), Vec::<u8>::new());
    assert_eq!(find_last_dot(&b("a.b.c")), Some(3));
    assert_eq!(find_last_dot(&b("abc")), None);
}

#[test]
fn canonical_names() {
    let fp = b(EMPTY_MD5);
    assert_eq!(canonical_name(&b("report.pdf"), &fp), b("d41d8cd98f00b204e9800998ecf8427e.pdf"));
    assert_eq!(canonical_name(&b("LICENSE"), &fp), b(EMPTY_MD5));
    assert_eq!(canonical_name(&b("notes."), &fp), b(EMPTY_MD5));
    assert_eq!(canonical_name(&b(".bashrc"), &fp), b(EMPTY_MD5));
    assert_eq!(canonical_name(&b("a.tar.gz"), &fp), b("d41d8cd98f00b204e9800998ecf8427e.gz"));
    assert!(same_name(&b("x.y"), &b("x.y")));
    assert!(!same_name(&b("x.y"), &b("x.z")));
    assert!(!same_name(&b("x"), &b("x.y")));
}

#[test]
fn target_name_uses_contents() {
    assert_eq!(target_name(&b("a.txt"), &b("abc")), b("900150983cd24fb0d6963f7d28e17f72.txt"));
}

#[test]
fn report_pdf_is_renamed_when_name_is_free() {
    let (mut task, next) = run_to_target("report.pdf", b"");
    match next {
        Action::CheckTarget(t) => assert_eq!(t, b("d41d8cd98f00b204e9800998ecf8427e.pdf")),
        other => panic!("unexpected {:?}", other),
    }
    match task.step(Event::TargetChecked(false)) {
        Action::RenameTo(t) => assert_eq!(t, b("d41d8cd98f00b204e9800998ecf8427e.pdf")),
        other => panic!("unexpected {:?}", other),
    }
    assert!(matches!(task.step(Event::RenameDone), Action::Finish(Ok(Outcome::Renamed))));
    assert_eq!(task.phase, Phase::Done);
}

#[test]
fn report_pdf_is_removed_when_name_is_taken() {
    let (mut task, _) = run_to_target("report.pdf", b"");
    assert!(matches!(task.step(Event::TargetChecked(true)), Action::RemoveDuplicate));
    match task.step(Event::RemoveDone) {
        Action::StampTarget(t) => assert_eq!(t, b("d41d8cd98f00b204e9800998ecf8427e.pdf")),
        other => panic!("unexpected {:?}", other),
    }
    assert!(matches!(task.step(Event::StampDone), Action::Finish(Ok(Outcome::DuplicateRemoved))));
}

#[test]
fn license_renames_to_bare_fingerprint() {
    let (_, next) = run_to_target("LICENSE", b"");
    match next {
        Action::CheckTarget(t) => assert_eq!(t, b(EMPTY_MD5)),
        other => panic!("unexpected {:?}", other),
    }
}

#[test]
fn canonical_file_is_left_untouched() {
    let (task, next) = run_to_target("d41d8cd98f00b204e9800998ecf8427e.pdf", b"");
    assert!(matches!(next, Action::Finish(Ok(Outcome::Unchanged))));
    assert_eq!(task.phase, Phase::Done);
}

#[test]
fn second_run_finds_everything_organised() {
    let contents = b"some contents";
    let (_, next) = run_to_target("data.csv", contents);
    let organised = match next {
        Action::CheckTarget(t) => t,
        other => panic!("unexpected {:?}", other),
    };
    let (mut task, _) = FileTask::new(&organised);
    assert!(matches!(task.step(Event::ContentsRead(contents.to_vec())), Action::Finish(Ok(Outcome::Unchanged))));
    let pattern = fingerprint_pattern().unwrap();
    assert!(!is_candidate(&organised, Mode::Fast, &pattern));
    assert!(is_candidate(&organised, Mode::Full, &pattern));
}

#[test]
fn identical_contents_compete_for_one_name() {
    let (_, first) = run_to_target("a.txt", b"same");
    let (mut second, next) = run_to_target("b.txt", b"same");
    let (ta, tb) = match (first, next) {
        (Action::CheckTarget(x), Action::CheckTarget(y)) => (x, y),
        _ => panic!("both files should need a move"),
    };
    assert_eq!(ta, tb);
    assert_eq!(stem(&ta), fingerprint(&b("same")));
    assert!(matches!(second.step(Event::TargetChecked(true)), Action::RemoveDuplicate));
}

#[test]
fn fast_mode_skips_fingerprint_stems() {
    let pattern = fingerprint_pattern().unwrap();
    let names = vec![
        b("d41d8cd98f00b204e9800998ecf8427e.pdf"),
        b("report.pdf"),
        b("D41D8CD98F00B204E9800998ECF8427E"),
        b("d41d8cd98f00b204e9800998ecf8427e"),
        b("d41d8cd98f00b204e9800998ecf8427"),
        b("d41d8cd98f00b204e9800998ecf8427e0"),
        vec![0xff, 0xfe, b'.', b't'],
    ];
    let fast = select_candidates(&names, Mode::Fast, &pattern);
    assert_eq!(fast, vec![names[1].clone(), names[2].clone(), names[4].clone(), names[5].clone(), names[6].clone()]);
    let full = select_candidates(&names, Mode::Full, &pattern);
    assert_eq!(full, names);
}

#[test]
fn listing_failure_ends_the_run() {
    let pattern = fingerprint_pattern().unwrap();
    assert_eq!(discover(None, Mode::Fast, &pattern), Err(OrganiseError::FailedToListDirectory));
    let listed = discover(Some(vec![b("x.txt"), b(EMPTY_MD5)]), Mode::Fast, &pattern);
    assert_eq!(listed, Ok(vec![b("x.txt")]));
    assert_eq!(discover(Some(Vec::new()), Mode::Full, &pattern), Ok(Vec::new()));
}

#[test]
fn unreadable_file_does_not_stop_its_neighbours() {
    let (mut first, _) = FileTask::new(&b("one.txt"));
    let (mut second, _) = FileTask::new(&b("two.txt"));
    let (mut third, _) = FileTask::new(&b(EMPTY_MD5));
    assert!(matches!(first.step(Event::ContentsRead(b("1"))), Action::CheckTarget(_)));
    assert!(matches!(second.step(Event::ReadFailed), Action::Finish(Err(OrganiseError::FailedToReadFile))));
    assert!(matches!(third.step(Event::ContentsRead(Vec::new())), Action::Finish(Ok(Outcome::Unchanged))));
    assert!(matches!(first.step(Event::TargetChecked(false)), Action::RenameTo(_)));
    assert!(matches!(first.step(Event::RenameDone), Action::Finish(Ok(Outcome::Renamed))));
}

#[test]
fn each_failure_has_its_error() {
    let (mut t, _) = run_to_target("a.txt", b"x");
    assert!(matches!(t.step(Event::CheckFailed), Action::Finish(Err(OrganiseError::FailedToReadFile))));
    let (mut t, _) = run_to_target("a.txt", b"x");
    t.step(Event::TargetChecked(false));
    assert!(matches!(t.step(Event::RenameFailed), Action::Finish(Err(OrganiseError::FailedToRenameNewFile))));
    let (mut t, _) = run_to_target("a.txt", b"x");
    t.step(Event::TargetChecked(true));
    assert!(matches!(t.step(Event::RemoveFailed), Action::Finish(Err(OrganiseError::FailedToRemoveDuplicateFile))));
    let (mut t, _) = run_to_target("a.txt", b"x");
    t.step(Event::TargetChecked(true));
    t.step(Event::RemoveDone);
    assert!(matches!(t.step(Event::StampFailed), Action::Finish(Err(OrganiseError::FailedToSetLastModified))));
}

#[test]
fn tasks_accept_only_the_awaited_event() {
    let (mut t, _) = FileTask::new(&b("a.txt"));
    assert!(t.accepts(&Event::ReadFailed));
    assert!(!t.accepts(&Event::RenameDone));
    t.step(Event::ReadFailed);
    assert!(!t.accepts(&Event::ReadFailed));
}

#[test]
fn error_descriptions() {
    assert_eq!(OrganiseError::FailedToListDirectory.description(), "failed to list files");
    assert_eq!(OrganiseError::FailedToReadFile.description(), "failed to read file");
    assert_eq!(OrganiseError::FailedToRemoveDuplicateFile.description(), "failed to remove duplicate file");
    assert_eq!(OrganiseError::FailedToRenameNewFile.description(), "failed to rename new file");
    assert_eq!(OrganiseError::FailedToSetLastModified.description(), "failed to set last modified time on file");
}

#[test]
fn survivor_takes_the_duplicate_time_or_now() {
    assert_eq!(survivor_time(Some(1_700_000_000u64), 1_800_000_000u64), 1_700_000_000);
    assert_eq!(survivor_time(None, 1_800_000_000u64), 1_800_000_000);
}

#[test]
fn fingerprint_pattern_compiles() {
    assert!(fingerprint_pattern().is_some());
}
