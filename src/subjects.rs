//! Subjects and notes: hierarchical names, the slug paths derived from
//! them, and their places in a shelf.

use vstd::prelude::*;
use vstd::string::*;
use crate::error::Error;
use crate::path::{
    join_parts, naively_normalize_path, normalize_text, parse_parts, part_text, texts_of,
    Component, LogicalPath, Part,
};
use crate::shelf::{Shelf, ShelfItem};
use crate::text::{kebab_case, kebab_of, trim, trimmed};

verus! {

/// The name of the metadata file inside a subject's directory.
pub const SUBJECT_METADATA_FILE: &'static str = "info.toml";

/// The extension of a note's source file.
pub const NOTE_EXTENSION: &'static str = ".tex";

/// `acc` extended by one segment text as `PathBuf::push` does it: a text
/// that starts at the root replaces `acc`; otherwise a `/` goes between
/// them unless `acc` is empty or ends in `/` already. An empty text thus
/// leaves a trailing `/` on a non-empty `acc`.
pub open spec fn push_segment(acc: Seq<char>, t: Seq<char>) -> Seq<char> {
    if t.len() > 0 && t[0] == '/' {
        t
    } else if acc.len() == 0 || acc.last() == '/' {
        acc + t
    } else {
        acc + seq!['/'] + t
    }
}

/// The texts pushed one after another onto the empty text.
pub open spec fn push_segments(ts: Seq<Seq<char>>) -> Seq<char>
    decreases ts.len(),
{
    if ts.len() == 0 {
        seq![]
    } else {
        push_segment(push_segments(ts.drop_last()), ts.last())
    }
}

/// The display form of a normalized path: the text of each component
/// trimmed, then the pieces rejoined as `PathBuf::push` joins them.
pub open spec fn display_text(ps: Seq<Part>) -> Seq<char> {
    push_segments(texts_of(ps).map_values(|t: Seq<char>| trim(t)))
}

/// The full name that an entity built from `raw` has: the display form of
/// the normalized input, or empty when normalization leaves nothing.
pub open spec fn entity_name(raw: Seq<char>) -> Seq<char> {
    match normalize_text(raw) {
        Some(ps) => display_text(ps),
        None => seq![],
    }
}

/// The name of an entity with full name `full`: the text of its last
/// component, or nothing where there is none or it is the root.
pub open spec fn last_name(full: Seq<char>) -> Seq<char> {
    let ps = parse_parts(full);
    if ps.len() == 0 || ps.last() is Root {
        seq![]
    } else {
        part_text(ps.last())
    }
}

/// What one component of a name becomes in the slug path.
pub open spec fn slug_part(p: Part) -> Seq<Part> {
    match p {
        Part::Named(t) => if kebab_of(t).len() > 0 {
            seq![Part::Named(kebab_of(t))]
        } else {
            seq![]
        },
        _ => seq![p],
    }
}

/// Every named component in kebab case, those that come out empty left
/// out; the root and `..` pass through.
pub open spec fn slug_parts(ps: Seq<Part>) -> Seq<Part>
    decreases ps.len(),
{
    if ps.len() == 0 {
        seq![]
    } else {
        slug_parts(ps.drop_last()) + slug_part(ps.last())
    }
}

/// What one component becomes given the slug `k` of its name.
pub open spec fn slug_part_with(p: Part, k: Seq<char>) -> Seq<Part> {
    match p {
        Part::Named(_) => if k.len() > 0 {
            seq![Part::Named(k)]
        } else {
            seq![]
        },
        _ => seq![p],
    }
}

/// The slug path of `ps` given the slug `ks[i]` of each name `ps[i]`.
pub open spec fn slug_parts_with(ps: Seq<Part>, ks: Seq<Seq<char>>) -> Seq<Part>
    decreases ps.len(),
{
    if ps.len() == 0 {
        seq![]
    } else {
        slug_parts_with(ps.drop_last(), ks.take(ps.len() - 1)) + slug_part_with(ps.last(), ks[ps.len() - 1])
    }
}

/// The kebab case of each name; empty for the other components.
pub open spec fn name_slugs(ps: Seq<Part>) -> Seq<Seq<char>> {
    ps.map_values(|p: Part| match p {
        Part::Named(t) => kebab_of(t),
        _ => seq![],
    })
}

proof fn lemma_slug_parts_with_names(ps: Seq<Part>)
    ensures
        slug_parts_with(ps, name_slugs(ps)) == slug_parts(ps),
    decreases ps.len(),
{
    if ps.len() > 0 {
        let q = ps.drop_last();
        assert(name_slugs(ps).take(ps.len() - 1) =~= name_slugs(q));
        lemma_slug_parts_with_names(q);
        assert(ps.last() == ps[ps.len() - 1]);
    }
}

/// The slug path of `p` given the slug of each of its names: a name whose
/// slug is empty is left out, the root and `..` pass through. `slugs[i]`
/// is read only where `p`'s `i`-th component is a name.
pub fn slug_path(p: &LogicalPath, slugs: &Vec<String>) -> (r: LogicalPath)
    requires
        slugs@.len() == p@.len(),
    ensures
        r@ == slug_parts_with(p@, slugs@.map_values(|s: String| s@)),
{
    let ghost ks = slugs@.map_values(|s: String| s@);
    let n = p.comps.len();
    let mut out = LogicalPath::new();
    let mut i: usize = 0;
    assert(p@.take(0) =~= seq![]);
    while i < n
        invariant
            n == p@.len(),
            slugs@.len() == n,
            ks == slugs@.map_values(|s: String| s@),
            i <= n,
            out@ == slug_parts_with(p@.take(i as int), ks.take(i as int)),
        decreases n - i,
    {
        assert(p@.take(i + 1).drop_last() =~= p@.take(i as int));
        assert(ks.take(i + 1).take(i as int) =~= ks.take(i as int));
        assert(p@[i as int] == p.comps@[i as int]@);
        assert(ks.take(i + 1)[i as int] == slugs@[i as int]@);
        let ghost before = out@;
        match &p.comps[i] {
            Component::Normal(_) => {
                if slugs[i].unicode_len() > 0 {
                    out.push_named(slugs[i].clone());
                }
                assert(out@ =~= before + slug_part_with(p@[i as int], ks[i as int]));
            },
            c => {
                let mut comps = out.comps;
                comps.push(c.copy());
                out = LogicalPath { comps };
                assert(out@ =~= before + slug_part_with(p@[i as int], ks[i as int]));
            },
        }
        i = i + 1;
    }
    assert(p@.take(n as int) =~= p@);
    assert(ks.take(n as int) =~= ks);
    out
}

/// The slug path of an entity with full name `name`.
pub open spec fn entity_path(name: Seq<char>) -> Seq<Part> {
    slug_parts(parse_parts(name))
}

/// The full names of the ancestors among the first `k` components of
/// `ps`, longest first, each as an entity of its own, empty ones left out.
pub open spec fn ancestor_names(ps: Seq<Part>, k: nat) -> Seq<Seq<char>>
    decreases k,
{
    if k == 0 {
        seq![]
    } else {
        let nm = entity_name(crate::path::render_parts(ps.take(k as int)));
        (if nm.len() > 0 {
            seq![nm]
        } else {
            seq![]
        }) + ancestor_names(ps, (k - 1) as nat)
    }
}

/// The full names of the entities built from `names` whose flag is set.
pub open spec fn present_names(names: Seq<Seq<char>>, present: Seq<bool>) -> Seq<Seq<char>>
    decreases names.len(),
{
    if names.len() == 0 {
        seq![]
    } else {
        present_names(names.drop_last(), present.drop_last()) + (if present.last() {
            seq![entity_name(names.last())]
        } else {
            seq![]
        })
    }
}

/// A subject: a hierarchical name whose segments are separated by `/`.
/// In the file system it is a directory, with an optional metadata file.
#[derive(Debug)]
pub struct Subject {
    name: String,
}

impl View for Subject {
    type V = Seq<char>;

    closed spec fn view(&self) -> Seq<char> {
        self.name@
    }
}

/// Pushes `t` onto `out` as `PathBuf::push` does.
fn push_segment_onto(out: &mut String, t: String)
    ensures
        final(out)@ == push_segment(old(out)@, t@),
{
    let n = out.unicode_len();
    if t.unicode_len() > 0 && t.as_str().get_char(0) == '/' {
        *out = t;
    } else if n == 0 || out.as_str().get_char(n - 1) == '/' {
        out.append(t.as_str());
    } else {
        proof { reveal_strlit("/"); }
        out.append("/");
        out.append(t.as_str());
    }
}

fn display_of(p: &LogicalPath) -> (r: String)
    ensures
        r@ == display_text(p@),
{
    let n = p.comps.len();
    let ghost ts = texts_of(p@).map_values(|t: Seq<char>| trim(t));
    let mut out = String::new();
    let mut i: usize = 0;
    assert(ts.take(0) =~= seq![]);
    while i < n
        invariant
            n == p@.len(),
            ts == texts_of(p@).map_values(|t: Seq<char>| trim(t)),
            i <= n,
            out@ == push_segments(ts.take(i as int)),
        decreases n - i,
    {
        let whole = p.comps[i].text();
        let t = trimmed(whole.as_str());
        assert(ts[i as int] == trim(whole@));
        assert(ts.take(i + 1).drop_last() =~= ts.take(i as int));
        push_segment_onto(&mut out, t);
        i = i + 1;
    }
    assert(ts.take(n as int) =~= ts);
    out
}

impl Subject {
    /// A subject named by `name`: the input is normalized as a path, each
    /// segment trimmed, and the segments rejoined. Input that normalizes to
    /// nothing gives the empty name.
    pub fn new(name: &str) -> (r: Subject)
        ensures
            r@ == entity_name(name@),
    {
        match naively_normalize_path(name) {
            None => Subject { name: String::new() },
            Some(p) => Subject { name: display_of(&p) },
        }
    }

    pub fn copy(&self) -> (r: Subject)
        ensures
            r@ == self@,
    {
        Subject { name: self.name.clone() }
    }

    /// The subject named by `name`, given whether its directory exists in
    /// the shelf; a missing directory is an error that names the path.
    pub fn from_shelf(name: &str, shelf: &Shelf, exists: bool) -> (r: Result<Subject, Error>)
        ensures
            exists ==> (r matches Ok(s) && s@ == entity_name(name@)),
            !exists ==> (r matches Err(Error::InvalidSubjectError(p))
                && p@ == join_parts(shelf@, entity_path(entity_name(name@)))),
    {
        let subject = Subject::new(name);
        if !exists {
            return Err(Error::InvalidSubjectError(subject.path_in_shelf(shelf)));
        }
        Ok(subject)
    }

    /// The subjects named in `subjects` whose directories exist, in order;
    /// `present[i]` tells whether the directory of the `i`-th one exists.
    pub fn from_vec(subjects: &Vec<String>, shelf: &Shelf, present: &Vec<bool>) -> (r: Vec<Subject>)
        requires
            present@.len() == subjects@.len(),
        ensures
            r@.map_values(|s: Subject| s@) == present_names(
                subjects@.map_values(|s: String| s@),
                present@,
            ),
    {
        let mut out: Vec<Subject> = Vec::new();
        let ghost names = subjects@.map_values(|s: String| s@);
        let mut i: usize = 0;
        assert(names.take(0) =~= seq![]);
        while i < subjects.len()
            invariant
                present@.len() == subjects@.len(),
                names == subjects@.map_values(|s: String| s@),
                i <= subjects@.len(),
                out@.map_values(|s: Subject| s@) == present_names(
                    names.take(i as int),
                    present@.take(i as int),
                ),
            decreases subjects@.len() - i,
        {
            let ghost before = out@.map_values(|s: Subject| s@);
            assert(names.take(i + 1).drop_last() =~= names.take(i as int));
            assert(present@.take(i + 1).drop_last() =~= present@.take(i as int));
            match Subject::from_shelf(subjects[i].as_str(), shelf, present[i]) {
                Ok(s) => {
                    out.push(s);
                    assert(out@.map_values(|s: Subject| s@) =~= before.push(
                        entity_name(names[i as int]),
                    ));
                },
                Err(_) => {},
            }
            assert(out@.map_values(|s: Subject| s@) =~= present_names(
                names.take(i + 1),
                present@.take(i + 1),
            ));
            i = i + 1;
        }
        assert(names.take(subjects@.len() as int) =~= names);
        assert(present@.take(subjects@.len() as int) =~= present@);
        out
    }

    /// The subjects named in `subjects`, in order, whether or not their
    /// directories exist in the shelf.
    pub fn from_vec_loose(subjects: &Vec<String>, shelf: &Shelf) -> (r: Vec<Subject>)
        ensures
            r@.map_values(|s: Subject| s@) == subjects@.map_values(|s: String| entity_name(s@)),
    {
        let mut out: Vec<Subject> = Vec::new();
        let mut i: usize = 0;
        while i < subjects.len()
            invariant
                i <= subjects@.len(),
                out@.map_values(|s: Subject| s@) == subjects@.map_values(
                    |s: String| entity_name(s@),
                ).take(i as int),
            decreases subjects@.len() - i,
        {
            let ghost before = out@.map_values(|s: Subject| s@);
            out.push(Subject::new(subjects[i].as_str()));
            assert(out@.map_values(|s: Subject| s@) =~= before.push(entity_name(subjects@[i as int]@)));
            assert(out@.map_values(|s: Subject| s@) =~= subjects@.map_values(
                |s: String| entity_name(s@),
            ).take(i + 1));
            i = i + 1;
        }
        assert(subjects@.map_values(|s: String| entity_name(s@)).take(subjects@.len() as int)
            =~= subjects@.map_values(|s: String| entity_name(s@)));
        out
    }

    /// The full name, parent subjects included.
    pub fn full_name(&self) -> (r: &String)
        ensures
            r@ == self@,
    {
        &self.name
    }

    /// The text of the last component of the full name, verbatim; empty
    /// where there is none or it is the root.
    pub fn name(&self) -> (r: String)
        ensures
            r@ == last_name(self@),
    {
        let parsed = LogicalPath::parse(self.name.as_str());
        let n = parsed.comps.len();
        if n == 0 {
            return String::new();
        }
        assert(parsed@.last() == parsed.comps@[n - 1]@);
        match &parsed.comps[n - 1] {
            Component::RootDir => String::new(),
            c => c.text(),
        }
    }

    /// The slug path: every named segment in kebab case.
    pub fn path(&self) -> (r: LogicalPath)
        ensures
            r@ == entity_path(self@),
    {
        let parsed = LogicalPath::parse(self.name.as_str());
        let ghost ps = parsed@;
        let n = parsed.comps.len();
        let mut slugs: Vec<String> = Vec::new();
        let mut i: usize = 0;
        while i < n
            invariant
                n == ps.len(),
                ps == parsed@,
                i <= n,
                slugs@.map_values(|s: String| s@) == name_slugs(ps).take(i as int),
            decreases n - i,
        {
            let ghost before = slugs@.map_values(|s: String| s@);
            assert(ps[i as int] == parsed.comps@[i as int]@);
            let k = match &parsed.comps[i] {
                Component::Normal(t) => kebab_case(t.as_str()),
                _ => String::new(),
            };
            slugs.push(k);
            assert(slugs@.map_values(|s: String| s@) =~= before.push(name_slugs(ps)[i as int]));
            assert(slugs@.map_values(|s: String| s@) =~= name_slugs(ps).take(i + 1));
            i = i + 1;
        }
        assert(name_slugs(ps).take(n as int) =~= name_slugs(ps));
        proof { lemma_slug_parts_with_names(ps); }
        slug_path(&parsed, &slugs)
    }

    /// What exporting the subject to the shelf takes, given whether the
    /// shelf's directory and the subject's directory exist: an unexported
    /// shelf is an error that names the shelf, an empty name is rejected,
    /// and otherwise the result is the directory to create, if it is
    /// missing.
    pub fn export(&self, shelf: &Shelf, shelf_exists: bool, dir_exists: bool) -> (r: Result<Option<LogicalPath>, Error>)
        ensures
            !shelf_exists ==> (r matches Err(Error::UnexportedShelfError(p)) && p@ == shelf@),
            shelf_exists && self@.len() == 0 ==> (r matches Err(Error::ValueError)),
            shelf_exists && self@.len() > 0 && dir_exists ==> r == Ok::<Option<LogicalPath>, Error>(None),
            shelf_exists && self@.len() > 0 && !dir_exists ==> (r matches Ok(Some(p))
                && p@ == join_parts(shelf@, entity_path(self@))),
    {
        if !shelf_exists {
            return Err(Error::UnexportedShelfError(shelf.path()));
        }
        if self.name.unicode_len() == 0 {
            return Err(Error::ValueError);
        }
        if dir_exists {
            return Ok(None);
        }
        Ok(Some(self.path_in_shelf(shelf)))
    }

    /// The directory that deleting the subject removes; a subject with an
    /// empty name would stand for the shelf itself and is rejected.
    pub fn delete(&self, shelf: &Shelf) -> (r: Result<LogicalPath, Error>)
        ensures
            self@.len() == 0 ==> (r matches Err(Error::ValueError)),
            self@.len() > 0 ==> (r matches Ok(p) && p@ == join_parts(shelf@, entity_path(self@))),
    {
        if self.name.unicode_len() == 0 {
            return Err(Error::ValueError);
        }
        Ok(self.path_in_shelf(shelf))
    }

    /// The subject named by the name alone.
    pub fn stem(&self) -> (r: Subject)
        ensures
            r@ == entity_name(last_name(self@)),
    {
        let n = self.name();
        Subject::new(n.as_str())
    }

    /// The path of the metadata file, relative to the shelf.
    pub fn metadata_path(&self) -> (r: LogicalPath)
        ensures
            r@ == entity_path(self@).push(Part::Named(SUBJECT_METADATA_FILE@)),
    {
        let mut p = self.path();
        p.push_named(String::from_str(SUBJECT_METADATA_FILE));
        p
    }

    /// The path of the metadata file in the shelf.
    pub fn metadata_path_in_shelf(&self, shelf: &Shelf) -> (r: LogicalPath)
        ensures
            r@ == join_parts(shelf@, entity_path(self@)).push(Part::Named(SUBJECT_METADATA_FILE@)),
    {
        let mut p = self.path_in_shelf(shelf);
        p.push_named(String::from_str(SUBJECT_METADATA_FILE));
        p
    }

    /// The subject followed by each of its ancestors, longest first, each
    /// as a subject of its own; ancestors with an empty name are left out.
    pub fn split_subjects(&self) -> (r: Vec<Subject>)
        ensures
            r@.map_values(|s: Subject| s@) == ancestor_names(
                parse_parts(self@),
                parse_parts(self@).len(),
            ),
    {
        let parsed = LogicalPath::parse(self.name.as_str());
        let ghost ps = parsed@;
        let n = parsed.comps.len();
        let mut out: Vec<Subject> = Vec::new();
        let mut k = n;
        assert(out@.map_values(|s: Subject| s@) + ancestor_names(ps, n as nat) =~= ancestor_names(ps, n as nat));
        while k > 0
            invariant
                n == ps.len(),
                ps == parsed@,
                k <= n,
                ancestor_names(ps, n as nat) == out@.map_values(|s: Subject| s@) + ancestor_names(ps, k as nat),
            decreases k,
        {
            let ghost before = out@.map_values(|s: Subject| s@);
            let prefix = parsed.prefix(k);
            let text = prefix.render();
            let s = Subject::new(text.as_str());
            let keep = s.name.unicode_len() > 0;
            if keep {
                out.push(s);
                assert(out@.map_values(|s: Subject| s@) =~= before.push(entity_name(text@)));
            }
            assert(ancestor_names(ps, k as nat) == (if entity_name(text@).len() > 0 {
                seq![entity_name(text@)]
            } else {
                seq![]
            }) + ancestor_names(ps, (k - 1) as nat));
            assert(ancestor_names(ps, n as nat) =~= out@.map_values(|s: Subject| s@) + ancestor_names(ps, (k - 1) as nat));
            k = k - 1;
        }
        assert(ancestor_names(ps, 0) =~= seq![]);
        assert(out@.map_values(|s: Subject| s@) + seq![] =~= out@.map_values(|s: Subject| s@));
        out
    }
}

impl<'a> ShelfItem<&'a Shelf> for Subject {
    open spec fn spec_path_in_shelf(&self, shelf: &'a Shelf) -> Seq<Part> {
        join_parts(shelf@, entity_path(self@))
    }

    /// The shelf's root joined with the subject's slug path.
    fn path_in_shelf(&self, shelf: &'a Shelf) -> (r: LogicalPath) {
        shelf.path().join(&self.path())
    }
}

/// A note: a document with a title, stored under a subject.
#[derive(Debug)]
pub struct Note {
    title: String,
}

impl View for Note {
    type V = Seq<char>;

    closed spec fn view(&self) -> Seq<char> {
        self.title@
    }
}

/// The file name of a note titled `title`.
pub open spec fn note_file_name(title: Seq<char>) -> Seq<char> {
    kebab_of(title) + NOTE_EXTENSION@
}

impl Note {
    /// A note with the given title.
    pub fn new(title: &str) -> (r: Note)
        ensures
            r@ == title@,
    {
        Note { title: String::from_str(title) }
    }

    pub fn title(&self) -> (r: &String)
        ensures
            r@ == self@,
    {
        &self.title
    }

    /// The title in kebab case with the source extension.
    pub fn file_name(&self) -> (r: String)
        ensures
            r@ == note_file_name(self@),
    {
        let mut k = kebab_case(self.title.as_str());
        k.append(NOTE_EXTENSION);
        k
    }

    /// The note's path relative to the shelf: the subject's slug path and
    /// the file name.
    pub fn path(&self, subject: &Subject) -> (r: LogicalPath)
        ensures
            r@ == entity_path(subject@).push(Part::Named(note_file_name(self@))),
    {
        let mut p = subject.path();
        p.push_named(self.file_name());
        p
    }
}

impl<'a> ShelfItem<(&'a Subject, &'a Shelf)> for Note {
    open spec fn spec_path_in_shelf(&self, params: (&'a Subject, &'a Shelf)) -> Seq<Part> {
        join_parts(params.1@, entity_path(params.0@).push(Part::Named(note_file_name(self@))))
    }

    /// The shelf's root joined with the note's path.
    fn path_in_shelf(&self, params: (&'a Subject, &'a Shelf)) -> (r: LogicalPath) {
        params.1.path().join(&self.path(params.0))
    }
}

proof fn lemma_slug_parts_add(a: Seq<Part>, b: Seq<Part>)
    ensures
        slug_parts(a + b) == slug_parts(a) + slug_parts(b),
    decreases b.len(),
{
    if b.len() == 0 {
        assert(a + b =~= a);
        assert(slug_parts(a) + slug_parts(b) =~= slug_parts(a));
    } else {
        lemma_slug_parts_add(a, b.drop_last());
        assert((a + b).drop_last() =~= a + b.drop_last());
        assert((a + b).last() == b.last());
        assert(slug_parts(a + b) =~= slug_parts(a) + slug_parts(b));
    }
}

proof fn lemma_slug_parts_single(p: Part)
    ensures
        slug_parts(seq![p]) == slug_part(p),
{
    assert(seq![p].drop_last() =~= Seq::<Part>::empty());
    assert(seq![p].last() == p);
    assert(slug_parts(Seq::<Part>::empty()) == Seq::<Part>::empty());
    assert(slug_parts(seq![p]) =~= slug_part(p));
}

/// Slugging a slug path again changes nothing, for paths whose names kebab
/// case leaves unchanged on a second application. This is the path-level
/// half of slug idempotence; the name-level half is a property of heck's
/// conversion that its documentation does not state.
pub proof fn lemma_slug_stable_where_kebab_stable(ps: Seq<Part>)
    requires
        forall|i: int| #![trigger ps[i]] 0 <= i < ps.len() ==> (ps[i] matches Part::Named(t)
            ==> kebab_of(kebab_of(t)) == kebab_of(t)),
    ensures
        slug_parts(slug_parts(ps)) == slug_parts(ps),
    decreases ps.len(),
{
    if ps.len() > 0 {
        let q = ps.drop_last();
        let p = ps.last();
        assert(p == ps[ps.len() - 1]);
        assert forall|i: int| #![trigger q[i]] 0 <= i < q.len() implies (q[i] matches Part::Named(t)
            ==> kebab_of(kebab_of(t)) == kebab_of(t)) by {
            assert(q[i] == ps[i]);
        }
        lemma_slug_stable_where_kebab_stable(q);
        lemma_slug_parts_add(slug_parts(q), slug_part(p));
        match p {
            Part::Named(t) => {
                if kebab_of(t).len() > 0 {
                    lemma_slug_parts_single(Part::Named(kebab_of(t)));
                } else {
                    assert(slug_part(p) =~= Seq::<Part>::empty());
                    assert(slug_parts(Seq::<Part>::empty()) == Seq::<Part>::empty());
                }
            },
            _ => {
                lemma_slug_parts_single(p);
            },
        }
    }
}

} // verus!
