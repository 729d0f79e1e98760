use lanoma::error::Error;
use lanoma::path::LogicalPath;
use lanoma::shelf::{Shelf, ShelfItem};
use lanoma::subjects::{slug_path, Note, Subject};

fn p(s: &str) -> LogicalPath {
    LogicalPath::parse(s)
}

fn names(subjects: &[Subject]) -> Vec<String> {
    subjects.iter().map(|s| s.full_name().clone()).collect()
}

#[test]
fn basic_subject() {
    let subject = Subject::new("Calculus");

    assert_eq!(subject.path(), p("calculus"));
    assert_eq!(subject.name(), String::from("Calculus"));

    let subject_fragments = subject.split_subjects();
    let mut subject_part = subject_fragments.iter();
    assert_eq!(
        subject_part.next().unwrap().full_name(),
        Subject::new("Calculus").full_name()
    );
}

#[test]
fn subject_with_multiple_path() {
    let subject = Subject::new("Mathematics/Calculus/");

    assert_eq!(subject.path(), p("mathematics/calculus/"));
    assert_eq!(subject.name(), String::from("Calculus"));

    let subject_fragments = subject.split_subjects();
    let mut subject_part = subject_fragments.iter();
    assert_eq!(
        subject_part.next().unwrap().full_name(),
        Subject::new("Mathematics/Calculus").full_name()
    );
    assert_eq!(
        subject_part.next().unwrap().full_name(),
        Subject::new("Mathematics").full_name()
    );
}

#[test]
fn subject_with_multiple_path_and_space() {
    let subject = Subject::new("Calculus/Calculus I");

    assert_eq!(subject.path(), p("calculus/calculus-i"));
    assert_eq!(subject.name(), String::from("Calculus I"));

    let subject_fragments = subject.split_subjects();
    let mut subject_part = subject_fragments.iter();
    assert_eq!(
        subject_part.next().unwrap().full_name(),
        Subject::new("Calculus/Calculus I").full_name()
    );
    assert_eq!(
        subject_part.next().unwrap().full_name(),
        Subject::new("Calculus").full_name()
    );
}

#[test]
fn subject_with_multiple_path_and_improper_input() {
    let subject = Subject::new("Bachelor I/Semester I/Quantum Mechanics/../.");

    assert_eq!(subject.path(), p("bachelor-i/semester-i/"));
    assert_eq!(subject.name(), String::from("Semester I"));

    let subject_fragments = subject.split_subjects();
    let mut subject_part = subject_fragments.iter();
    assert_eq!(
        subject_part.next().unwrap().full_name(),
        Subject::new("Bachelor I/Semester I").full_name()
    );
    assert_eq!(
        subject_part.next().unwrap().full_name(),
        Subject::new("Bachelor I").full_name()
    );
}

#[test]
fn subject_with_multiple_path_and_improper_input_and_leading_stars() {
    let subject = Subject::new("Bachelor I/Semester I/Quantum Mechanics/../.Logs");

    assert_eq!(subject.path(), p("bachelor-i/semester-i/logs"));
    assert_eq!(subject.name(), String::from(".Logs"));

    let subject_fragments = subject.split_subjects();
    let mut subject_part = subject_fragments.iter();
    assert_eq!(
        subject_part.next().unwrap().full_name(),
        Subject::new("Bachelor I/Semester I/.Logs").full_name()
    );
    assert_eq!(
        subject_part.next().unwrap().full_name(),
        Subject::new("Bachelor I/Semester I").full_name()
    );
    assert_eq!(
        subject_part.next().unwrap().full_name(),
        Subject::new("Bachelor I/").full_name()
    );
}

#[test]
fn subject_with_parent_dir() {
    let subject = Subject::new("../University/Year 1/Semester 1/Computer Engineering");

    assert_eq!(subject.name(), String::from("Computer Engineering"));
    assert_eq!(
        subject.path(),
        p("../university/year-1/semester-1/computer-engineering")
    );

    let subjects = subject.split_subjects();
    let mut subject_part = subjects.iter();

    assert_eq!(
        subject_part.next().unwrap().full_name(),
        Subject::new("../University/Year 1/Semester 1/Computer Engineering").full_name()
    );
    assert_eq!(
        subject_part.next().unwrap().full_name(),
        Subject::new("../University/Year 1/Semester 1").full_name()
    );
    assert_eq!(
        subject_part.next().unwrap().full_name(),
        Subject::new("../University/Year 1").full_name()
    );
    assert_eq!(
        subject_part.next().unwrap().full_name(),
        Subject::new("../University").full_name()
    );
    assert_eq!(subject_part.next().unwrap().full_name(), Subject::new("..").full_name());
    assert!(subject_part.next().is_none());
}

#[test]
fn basic_note() {
    let subject = Subject::new("Calculus");
    let note = Note::new("An introduction to calculus concepts");

    assert_eq!(
        note.file_name(),
        "an-introduction-to-calculus-concepts.tex".to_string()
    );

    assert_eq!(
        note.path(&subject),
        p("calculus/an-introduction-to-calculus-concepts.tex")
    );
}

#[test]
fn note_and_subject_with_multiple_path() {
    let subject = Subject::new("First Year/Semester I/Calculus");
    let note = Note::new("An introduction to calculus concepts");

    assert_eq!(
        note.file_name(),
        "an-introduction-to-calculus-concepts.tex".to_string()
    );

    assert_eq!(
        note.path(&subject),
        p("first-year/semester-i/calculus/an-introduction-to-calculus-concepts.tex")
    );
}

#[test]
fn improper_input_scenario_gives_path_and_name() {
    let subject = Subject::new("Bachelor I/Semester I/Quantum Mechanics/../.");
    assert_eq!(subject.path().render(), "bachelor-i/semester-i");
    assert_eq!(subject.name(), "Semester I");
    assert_eq!(subject.full_name(), "Bachelor I/Semester I");
}

#[test]
fn segments_are_trimmed() {
    let subject = Subject::new("  Calculus /   Calculus I  ");
    assert_eq!(subject.full_name(), "Calculus/Calculus I");
    assert_eq!(Subject::new(" a / \u{3000} /b").full_name(), "a/b");
}

#[test]
fn empty_input_gives_empty_name() {
    assert_eq!(Subject::new("").full_name(), "");
    assert_eq!(Subject::new("./a/..").full_name(), "");
    assert_eq!(Subject::new("").name(), "");
    assert!(Subject::new("a/..").split_subjects().is_empty());
}

#[test]
fn absolute_subject_keeps_its_root() {
    let subject = Subject::new("/Maths/Linear Algebra");
    assert_eq!(subject.full_name(), "/Maths/Linear Algebra");
    assert_eq!(subject.path(), p("/maths/linear-algebra"));
    assert_eq!(names(&subject.split_subjects()), vec!["/Maths/Linear Algebra", "/Maths", "/"]);
}

#[test]
fn stem_is_the_last_segment() {
    let subject = Subject::new("Bachelor I/Semester I");
    assert_eq!(subject.stem().full_name(), "Semester I");
}

#[test]
fn slug_of_slug_is_unchanged() {
    for raw in ["Bachelor I/Semester I", "../University/Year 1", "Mixed UP CamelCase/x_y z"] {
        let slug = Subject::new(raw).path();
        let again = Subject::new(&slug.render()).path();
        assert_eq!(again, slug);
    }
}

#[test]
fn metadata_paths() {
    let shelf = Shelf::new("/home/me/notes");
    let subject = Subject::new("Calculus/Calculus I");
    assert_eq!(subject.metadata_path(), p("calculus/calculus-i/info.toml"));
    assert_eq!(
        subject.metadata_path_in_shelf(&shelf),
        p("/home/me/notes/calculus/calculus-i/info.toml")
    );
    assert_eq!(subject.path_in_shelf(&shelf), p("/home/me/notes/calculus/calculus-i"));
}

#[test]
fn note_path_in_shelf() {
    let shelf = Shelf::new("/srv/shelf");
    let subject = Subject::new("Physics");
    let note = Note::new("Taylor Series");
    assert_eq!(note.path_in_shelf((&subject, &shelf)), p("/srv/shelf/physics/taylor-series.tex"));
    assert_eq!(note.title(), "Taylor Series");
}

#[test]
fn from_shelf_requires_the_directory() {
    let shelf = Shelf::new("/srv/shelf");
    let ok = Subject::from_shelf("Algebra", &shelf, true).unwrap();
    assert_eq!(ok.full_name(), "Algebra");
    match Subject::from_shelf("Linear Algebra", &shelf, false) {
        Err(Error::InvalidSubjectError(path)) => assert_eq!(path, p("/srv/shelf/linear-algebra")),
        other => panic!("unexpected {:?}", other),
    }
}

#[test]
fn from_vec_keeps_present_subjects_in_order() {
    let shelf = Shelf::new("/srv/shelf");
    let input = vec!["Calculus".to_string(), "Algebra".to_string(), "Physics".to_string()];
    let found = Subject::from_vec(&input, &shelf, &vec![true, false, true]);
    assert_eq!(names(&found), vec!["Calculus", "Physics"]);
    let loose = Subject::from_vec_loose(&input, &shelf);
    assert_eq!(names(&loose), vec!["Calculus", "Algebra", "Physics"]);
}

#[test]
fn trailing_blank_segment_keeps_its_separator() {
    let subject = Subject::new("a/ ");
    assert_eq!(subject.full_name(), "a/");
    assert_eq!(subject.name(), "a");
    assert_eq!(subject.path(), p("a"));
    assert_eq!(Subject::new(" / x").full_name(), "x");
    assert_eq!(Subject::new("/a/ /b/ ").full_name(), "/a/b/");
    assert_eq!(Subject::new("/").name(), "");
    assert_eq!(Subject::new("../..").name(), "..");
}

#[test]
fn slug_path_uses_given_slugs() {
    let given = p("../A/B/C");
    let slugs = vec![String::new(), "a".to_string(), String::new(), "c-c".to_string()];
    assert_eq!(slug_path(&given, &slugs), p("../a/c-c"));
}

#[test]
fn export_decides_what_to_create() {
    let shelf = Shelf::new("/srv/shelf");
    let subject = Subject::new("Linear Algebra");
    match subject.export(&shelf, false, false) {
        Err(Error::UnexportedShelfError(path)) => assert_eq!(path, p("/srv/shelf")),
        other => panic!("unexpected {:?}", other),
    }
    assert!(matches!(Subject::new("").export(&shelf, true, false), Err(Error::ValueError)));
    assert!(matches!(subject.export(&shelf, true, true), Ok(None)));
    assert_eq!(subject.export(&shelf, true, false).unwrap(), Some(p("/srv/shelf/linear-algebra")));
}

#[test]
fn delete_rejects_the_empty_subject() {
    let shelf = Shelf::new("/srv/shelf");
    assert!(matches!(Subject::new("a/..").delete(&shelf), Err(Error::ValueError)));
    assert_eq!(Subject::new("Physics").delete(&shelf).unwrap(), p("/srv/shelf/physics"));
}
