//! The core text-editing data structure, and the set of open buffers.
//!
//! A buffer has a name, some text, a point and sometimes a mark. The point
//! is where the user's cursor is. The mark, set with `set_mark`, is a second
//! position; the text between the point and the mark is the region.

use crate::error::{anyhow_msg, NeomacsError};
use crate::keyed::{has_key, keys_unique, lemma_index_of, lemma_push, lemma_remove, lemma_to_map_dom, lemma_to_map_val, lemma_update, to_map, index_of};
use crate::point::Point;
use crate::rope::{rope_chars, rope_from_bytes, rope_insert, rope_len_chars, rope_new, rope_remove, rope_slice, slice_chars, spec_insert, spec_remove};
use crate::text::{concat_str, str_eq};
use ropey::{Rope, RopeSlice};
use std::ops::Range;
use std::path::PathBuf;
use std::time::SystemTime;
use vstd::prelude::*;
use vstd::string::*;
use vstd::utf8::{decode_utf8, valid_utf8};

verus! {

#[verifier::external_type_specification]
#[verifier::external_body]
pub struct ExPathBuf(PathBuf);

#[verifier::external_type_specification]
#[verifier::external_body]
pub struct ExSystemTime(SystemTime);

/// `SystemTime::clone`: the same instant (`SystemTime` is `Copy`).
pub assume_specification[ <SystemTime as Clone>::clone ](t: &SystemTime) -> (res: SystemTime)
    ensures
        res == *t,
;

/// `PathBuf::clone`: a copy of the path. Nothing is claimed of it: the
/// library never reads a path.
pub assume_specification[ <PathBuf as Clone>::clone ](p: &PathBuf) -> (res: PathBuf);

/// The last component of a path, as `Path::file_name` gives it: `None`
/// where the path has none (it ends in `..`, or is a root).
pub uninterp spec fn file_name_of(path: PathBuf) -> Option<PathBuf>;

/// `Path::file_name`, the name it gives held as a path of its own.
#[verifier::external_body]
fn path_file_name(path: &PathBuf) -> (r: Option<PathBuf>)
    ensures
        r == file_name_of(*path),
{
    match path.file_name() {
        None => None,
        Some(n) => Some(PathBuf::from(n)),
    }
}

/// The text of a path, as `Path::to_str` gives it: `None` where the path
/// is not valid Unicode.
pub uninterp spec fn path_text(path: PathBuf) -> Option<Seq<char>>;

/// `Path::to_str`, the text it gives held as a `String`.
#[verifier::external_body]
fn path_to_string(path: &PathBuf) -> (r: Option<String>)
    ensures
        match r {
            None => path_text(*path) is None,
            Some(t) => path_text(*path) == Some(t@),
        },
{
    match path.to_str() {
        None => None,
        Some(t) => Some(t.to_string()),
    }
}

/// `SystemTime::now`: the time of the call. Nothing is claimed of it.
#[verifier::external_body]
fn system_time_now() -> SystemTime {
    SystemTime::now()
}

/// The name a buffer gets when none is given.
pub const UNTITLED: &'static str = "(untitled)";

/// A text buffer.
#[derive(Clone, Debug)]
pub struct Buffer {
    name: String,
    contents: Rope,
    visited_file: Option<PathBuf>,
    point: Point,
    mark: Option<Point>,
    modified: bool,
    modified_time: SystemTime,
}

impl Buffer {
    /// The buffer's name.
    pub closed spec fn spec_name(self) -> Seq<char> {
        self.name@
    }

    /// The buffer's text.
    pub closed spec fn text(self) -> Seq<char> {
        rope_chars(self.contents)
    }

    /// The point's char index.
    pub closed spec fn spec_point(self) -> usize {
        self.point.char_idx
    }

    /// The mark's char index, if the mark is set.
    pub closed spec fn spec_mark(self) -> Option<usize> {
        match self.mark {
            Some(m) => Some(m.char_idx),
            None => None,
        }
    }

    /// Whether the buffer visits a file.
    pub closed spec fn visits_file(self) -> bool {
        self.visited_file is Some
    }

    /// The path of the file the buffer visits, if any.
    pub closed spec fn spec_visited_file(self) -> Option<PathBuf> {
        self.visited_file
    }

    /// When the buffer's text was last modified (for a visited file, as
    /// the file system records it).
    pub closed spec fn spec_modified_time(self) -> SystemTime {
        self.modified_time
    }

    /// Whether the buffer has changes not yet saved.
    pub closed spec fn spec_modified(self) -> bool {
        self.modified
    }

    /// The region, as (start, end), where the mark is set.
    pub open spec fn spec_region(self) -> Option<(usize, usize)> {
        match self.spec_mark() {
            Some(m) => {
                let p = self.spec_point();
                Some(if p <= m { (p, m) } else { (m, p) })
            },
            None => None,
        }
    }

    /// Whether `a` and `b` visit the same file, are alike modified or not,
    /// and have the same modification time.
    pub open spec fn same_file(a: Buffer, b: Buffer) -> bool {
        &&& b.spec_visited_file() == a.spec_visited_file()
        &&& b.spec_modified() == a.spec_modified()
        &&& b.spec_modified_time() == a.spec_modified_time()
    }

    /// Whether `b` is `a` with its name changed and all else kept.
    pub open spec fn renamed(a: Buffer, b: Buffer) -> bool {
        &&& b.text() == a.text()
        &&& b.spec_visited_file() == a.spec_visited_file()
        &&& b.spec_point() == a.spec_point()
        &&& b.spec_mark() == a.spec_mark()
        &&& b.spec_modified() == a.spec_modified()
        &&& b.spec_modified_time() == a.spec_modified_time()
    }

    /// Whether `b` is the buffer that `new` makes with `name`.
    pub open spec fn is_fresh(b: Buffer, name: Seq<char>) -> bool {
        &&& b.spec_name() == name
        &&& b.text() == Seq::<char>::empty()
        &&& b.spec_point() == 0
        &&& b.spec_mark() is None
        &&& !b.visits_file()
        &&& !b.spec_modified()
    }

    /// An empty buffer named `name`, with the point at the start and no mark.
    pub fn new(name: &str) -> (b: Self)
        ensures
            Self::is_fresh(b, name@),
    {
        Self {
            name: String::from_str(name),
            contents: rope_new(),
            visited_file: None,
            point: Point::new(),
            mark: None,
            modified: false,
            modified_time: system_time_now(),
        }
    }

    /// A buffer named `name` that visits the file at `path`, holding the
    /// file's text `contents` and its modification time.
    pub fn from_file(name: String, contents: Rope, path: PathBuf, modified_time: SystemTime) -> (b: Self)
        ensures
            b.spec_name() == name@,
            b.text() == rope_chars(contents),
            b.spec_point() == 0,
            b.spec_mark() is None,
            b.visits_file(),
            b.spec_visited_file() == Some(path),
            b.spec_modified_time() == modified_time,
            !b.spec_modified(),
    {
        Self {
            name,
            contents,
            visited_file: Some(path),
            point: Point::new(),
            mark: None,
            modified: false,
            modified_time,
        }
    }

    /// A buffer visiting the file at `path`, last modified at
    /// `modified_time`, named by the path's file name. Where the file was
    /// read, its bytes `contents` give the text, and bytes that are not
    /// UTF-8 give an `IO` error; where it could not be opened (`None`), the
    /// buffer starts empty. A path with no file name, or one that is not
    /// UTF-8, gives an `Unhandled` error (after the text is read).
    pub fn visiting(path: PathBuf, contents: Option<Vec<u8>>, modified_time: SystemTime) -> (r: Result<Self, NeomacsError>)
        ensures
            match contents {
                Some(bytes) => !valid_utf8(bytes@) ==> r matches Err(NeomacsError::IO(_)),
                None => true,
            },
            (match contents { Some(bytes) => valid_utf8(bytes@), None => true }) ==> match file_name_of(path) {
                Some(n) => match path_text(n) {
                    Some(name) => r matches Ok(b) && b.spec_name() == name,
                    None => r matches Err(NeomacsError::Unhandled(_)),
                },
                None => r matches Err(NeomacsError::Unhandled(_)),
            },
            r matches Ok(b) ==> b.spec_point() == 0 && b.spec_mark() is None && !b.spec_modified()
                && b.spec_visited_file() == Some(path) && b.spec_modified_time() == modified_time
                && b.text() == match contents {
                    Some(bytes) => decode_utf8(bytes@),
                    None => Seq::<char>::empty(),
                },
    {
        let rope = match contents {
            Some(bytes) => match rope_from_bytes(bytes) {
                Ok(rope) => rope,
                Err(e) => return Err(NeomacsError::IO(e)),
            },
            None => rope_new(),
        };
        let file_name = match path_file_name(&path) {
            Some(n) => n,
            None => return Err(NeomacsError::Unhandled(anyhow_msg(String::from_str("Invalid file path")))),
        };
        let name = match path_to_string(&file_name) {
            Some(name) => name,
            None => return Err(NeomacsError::Unhandled(anyhow_msg(String::from_str("File path is not valid unicode")))),
        };
        Ok(Self::from_file(name, rope, path, modified_time))
    }

    /// The buffer's name.
    pub fn name(&self) -> (r: &str)
        ensures
            r@ == self.spec_name(),
    {
        self.name.as_str()
    }

    /// The buffer's contents.
    pub fn contents(&self) -> (r: &Rope)
        ensures
            rope_chars(*r) == self.text(),
    {
        &self.contents
    }

    /// The number of chars in the buffer.
    pub fn len_chars(&self) -> (n: usize)
        ensures
            n == self.text().len(),
    {
        rope_len_chars(&self.contents)
    }

    /// The point.
    pub fn point(&self) -> (p: Point)
        ensures
            p.char_idx == self.spec_point(),
    {
        self.point
    }

    /// The mark, if set.
    pub fn mark(&self) -> (m: Option<Point>)
        ensures
            match m {
                Some(p) => self.spec_mark() == Some(p.char_idx),
                None => self.spec_mark() is None,
            },
    {
        self.mark
    }

    /// Sets the point to `char_idx`.
    pub fn set_point(&mut self, char_idx: usize)
        ensures
            final(self).spec_point() == char_idx,
            final(self).spec_mark() == old(self).spec_mark(),
            final(self).text() == old(self).text(),
            final(self).spec_name() == old(self).spec_name(),
            Buffer::same_file(*old(self), *final(self)),
    {
        self.point.set_char_idx(char_idx);
    }

    /// Sets the mark to be the same index as the point.
    pub fn set_mark_to_point(&mut self)
        ensures
            final(self).spec_mark() == Some(old(self).spec_point()),
            final(self).spec_point() == old(self).spec_point(),
            final(self).text() == old(self).text(),
            final(self).spec_name() == old(self).spec_name(),
            Buffer::same_file(*old(self), *final(self)),
    {
        let p = self.point.char_idx;
        self.set_mark(p);
    }

    /// Sets the mark to `char_idx`.
    pub fn set_mark(&mut self, char_idx: usize)
        ensures
            final(self).spec_mark() == Some(char_idx),
            final(self).spec_point() == old(self).spec_point(),
            final(self).text() == old(self).text(),
            final(self).spec_name() == old(self).spec_name(),
            Buffer::same_file(*old(self), *final(self)),
    {
        match &mut self.mark {
            Some(mark) => mark.set_char_idx(char_idx),
            None => self.mark = Some(Point::at_idx(char_idx)),
        }
    }

    /// Clears the mark.
    pub fn clear_mark(&mut self)
        ensures
            final(self).spec_mark() is None,
            final(self).spec_point() == old(self).spec_point(),
            final(self).text() == old(self).text(),
            final(self).spec_name() == old(self).spec_name(),
            Buffer::same_file(*old(self), *final(self)),
    {
        self.mark = None;
    }

    /// Inserts `text` at the point and moves the point to the end of the
    /// inserted text. The point must lie within the text.
    pub fn insert(&mut self, text: &str)
        requires
            old(self).spec_point() <= old(self).text().len(),
        ensures
            final(self).text() == spec_insert(old(self).text(), old(self).spec_point() as int, text@),
            final(self).spec_point() == old(self).spec_point() + text@.len(),
            final(self).spec_mark() == old(self).spec_mark(),
            final(self).spec_name() == old(self).spec_name(),
            Buffer::same_file(*old(self), *final(self)),
    {
        let p = self.point.char_idx;
        self.insert_at(p, text);
        let len = rope_len_chars(&self.contents);
        let count = text.unicode_len();
        assert(p + count <= len);
        self.point.set_char_idx(p + count);
    }

    /// Inserts `text` at `char_idx`, which must lie within the text. The
    /// point does not move.
    pub fn insert_at(&mut self, char_idx: usize, text: &str)
        requires
            char_idx <= old(self).text().len(),
        ensures
            final(self).text() == spec_insert(old(self).text(), char_idx as int, text@),
            final(self).spec_point() == old(self).spec_point(),
            final(self).spec_mark() == old(self).spec_mark(),
            final(self).spec_name() == old(self).spec_name(),
            Buffer::same_file(*old(self), *final(self)),
    {
        rope_insert(&mut self.contents, char_idx, text);
    }

    /// The range between the point and the mark, if the mark is set: from
    /// the lower of the two up to, not including, the higher.
    fn region(&self) -> (r: Option<Range<usize>>)
        ensures
            match self.spec_region() {
                Some((s, e)) => r matches Some(rg) && rg.start == s && rg.end == e,
                None => r is None,
            },
    {
        match self.mark {
            Some(mark) => {
                let p = self.point.char_idx;
                let m = mark.char_idx;
                Some(Range { start: if p <= m { p } else { m }, end: if p <= m { m } else { p } })
            },
            None => None,
        }
    }

    /// Deletes the text in the region, if there is a region. The region
    /// must lie within the text.
    pub fn remove(&mut self)
        requires
            old(self).spec_region() matches Some((s, e)) ==> e <= old(self).text().len(),
        ensures
            final(self).text() == match old(self).spec_region() {
                Some((s, e)) => spec_remove(old(self).text(), s as int, e as int),
                None => old(self).text(),
            },
            final(self).spec_point() == old(self).spec_point(),
            final(self).spec_mark() == old(self).spec_mark(),
            final(self).spec_name() == old(self).spec_name(),
            Buffer::same_file(*old(self), *final(self)),
    {
        if let Some(region) = self.region() {
            self.remove_at(region)
        }
    }

    /// Removes the text in `char_range`, which must be in order and lie
    /// within the text.
    pub fn remove_at(&mut self, char_range: Range<usize>)
        requires
            char_range.start <= char_range.end <= old(self).text().len(),
        ensures
            final(self).text() == spec_remove(old(self).text(), char_range.start as int, char_range.end as int),
            final(self).spec_point() == old(self).spec_point(),
            final(self).spec_mark() == old(self).spec_mark(),
            final(self).spec_name() == old(self).spec_name(),
            Buffer::same_file(*old(self), *final(self)),
    {
        rope_remove(&mut self.contents, char_range.start, char_range.end);
    }

    /// The text in the region, if there is a region. The region must lie
    /// within the text.
    pub fn region_slice(&self) -> (r: Option<RopeSlice<'_>>)
        requires
            self.spec_region() matches Some((s, e)) ==> e <= self.text().len(),
        ensures
            match self.spec_region() {
                Some((s, e)) => r matches Some(sl) && slice_chars(sl) == self.text().subrange(s as int, e as int),
                None => r is None,
            },
    {
        match self.region() {
            Some(region) => Some(self.slice(region)),
            None => None,
        }
    }

    /// The text in `char_range`, which must be in order and lie within the text.
    pub fn slice(&self, char_range: Range<usize>) -> (r: RopeSlice<'_>)
        requires
            char_range.start <= char_range.end <= self.text().len(),
        ensures
            slice_chars(r) == self.text().subrange(char_range.start as int, char_range.end as int),
    {
        rope_slice(&self.contents, char_range.start, char_range.end)
    }
}

impl Default for Buffer {
    fn default() -> (b: Self)
        ensures
            Self::is_fresh(b, UNTITLED@),
    {
        Self::new(UNTITLED)
    }
}


/// The key of an entry of the buffer list: the name it is kept under.
pub open spec fn entry_key(e: (String, Buffer)) -> Seq<char> {
    e.0@
}

/// The open buffers, each kept under its name, and the name of the current one.
#[derive(Clone, Debug)]
pub struct BufferState {
    buffers: Vec<(String, Buffer)>,
    current_buffer: String,
}

/// The error for an already existing buffer named `name`.
fn already_exists(name: &str) -> (e: NeomacsError)
    ensures
        e matches NeomacsError::AlreadyExists(m) && m@ == "Buffer "@ + name@,
{
    proof { reveal_strlit("Buffer "); }
    NeomacsError::AlreadyExists(concat_str("Buffer ", name))
}

/// The error for a buffer named `name` that does not exist.
fn does_not_exist(name: &str) -> (e: NeomacsError)
    ensures
        e matches NeomacsError::DoesNotExist(m) && m@ == "Buffer "@ + name@,
{
    proof { reveal_strlit("Buffer "); }
    NeomacsError::DoesNotExist(concat_str("Buffer ", name))
}

impl BufferState {
    closed spec fn entries(self) -> Map<Seq<char>, (String, Buffer)> {
        to_map(self.buffers@, |e: (String, Buffer)| entry_key(e))
    }

    /// The open buffers, by the name each is kept under.
    pub closed spec fn spec_buffers(self) -> Map<Seq<char>, Buffer> {
        self.entries().map_values(|e: (String, Buffer)| e.1)
    }

    /// The name of the current buffer.
    pub closed spec fn spec_current(self) -> Seq<char> {
        self.current_buffer@
    }

    /// No two buffers are kept under one name, and the current buffer is one of them.
    pub closed spec fn wf(self) -> bool {
        &&& keys_unique(self.buffers@, |e: (String, Buffer)| entry_key(e))
        &&& has_key(self.buffers@, |e: (String, Buffer)| entry_key(e), self.current_buffer@)
    }

    /// In a well-formed buffer list, the current buffer is open.
    pub proof fn lemma_current(self)
        requires
            self.wf(),
        ensures
            self.spec_buffers().dom().contains(self.spec_current()),
    {
        lemma_to_map_dom(self.buffers@, |e: (String, Buffer)| entry_key(e), self.current_buffer@);
    }

    /// The index of the buffer kept under `name`, if there is one.
    fn find(&self, name: &str) -> (r: Option<usize>)
        requires
            keys_unique(self.buffers@, |e: (String, Buffer)| entry_key(e)),
        ensures
            match r {
                Some(i) => i < self.buffers@.len() && entry_key(self.buffers@[i as int]) == name@
                    && self.spec_buffers().dom().contains(name@)
                    && self.spec_buffers()[name@] == self.buffers@[i as int].1,
                None => !has_key(self.buffers@, |e: (String, Buffer)| entry_key(e), name@)
                    && !self.spec_buffers().dom().contains(name@),
            },
    {
        let ghost f = |e: (String, Buffer)| entry_key(e);
        let mut i: usize = 0;
        while i < self.buffers.len()
            invariant
                i <= self.buffers@.len(),
                f == |e: (String, Buffer)| entry_key(e),
                keys_unique(self.buffers@, f),
                forall|j: int| 0 <= j < i ==> entry_key(#[trigger] self.buffers@[j]) != name@,
            decreases self.buffers@.len() - i,
        {
            if str_eq(self.buffers[i].0.as_str(), name) {
                proof {
                    lemma_to_map_val(self.buffers@, f, i as int);
                }
                return Some(i);
            }
            i += 1;
        }
        proof {
            lemma_to_map_dom(self.buffers@, f, name@);
            if has_key(self.buffers@, f, name@) {
                let j = choose|j: int| 0 <= j < self.buffers@.len() && f(#[trigger] self.buffers@[j]) == name@;
                assert(entry_key(self.buffers@[j]) == name@);
            }
        }
        None
    }

    /// One untitled, empty buffer, which is current.
    fn untitled() -> (s: Self)
        ensures
            s.wf(),
            s.spec_current() == UNTITLED@,
            s.spec_buffers().dom() == set![UNTITLED@],
            Buffer::is_fresh(s.spec_buffers()[UNTITLED@], UNTITLED@),
    {
        let empty_buf = Buffer::default();
        let mut buffers: Vec<(String, Buffer)> = Vec::new();
        buffers.push((String::from_str(UNTITLED), empty_buf));
        let s = Self { buffers, current_buffer: String::from_str(UNTITLED) };
        proof {
            let f = |e: (String, Buffer)| entry_key(e);
            assert(s.buffers@.drop_last() =~= Seq::<(String, Buffer)>::empty());
            assert(f(s.buffers@[0]) == UNTITLED@);
            reveal_with_fuel(to_map, 2);
            assert(s.entries() == Map::<Seq<char>, (String, Buffer)>::empty().insert(UNTITLED@, s.buffers@[0]));
            assert(s.spec_buffers().dom() =~= set![UNTITLED@]);
        }
        s
    }

    /// The buffer named `name`, if it is open.
    pub fn get_buffer(&self, name: &str) -> (r: Option<&Buffer>)
        requires
            self.wf(),
        ensures
            self.spec_buffers().dom().contains(name@) ==> r == Some(&self.spec_buffers()[name@]),
            !self.spec_buffers().dom().contains(name@) ==> r is None,
    {
        match self.find(name) {
            Some(i) => Some(&self.buffers[i].1),
            None => None,
        }
    }

    /// The current buffer.
    pub fn current_buffer(&self) -> (r: &Buffer)
        requires
            self.wf(),
        ensures
            *r == self.spec_buffers()[self.spec_current()],
    {
        proof { self.lemma_current(); }
        match self.find(self.current_buffer.as_str()) {
            Some(i) => &self.buffers[i].1,
            None => {
                proof { assert(false); }
                &self.buffers[0].1
            },
        }
    }

    /// Makes the buffer named `name` the current one, if it is open.
    pub fn set_current_buffer(&mut self, name: &str) -> (r: Result<(), NeomacsError>)
        requires
            old(self).wf(),
        ensures
            final(self).wf(),
            final(self).spec_buffers() == old(self).spec_buffers(),
            old(self).spec_buffers().dom().contains(name@) ==> r is Ok && final(self).spec_current() == name@,
            !old(self).spec_buffers().dom().contains(name@) ==> final(self).spec_current() == old(self).spec_current()
                && (r matches Err(NeomacsError::DoesNotExist(m)) && m@ == "Buffer "@ + name@),
    {
        match self.find(name) {
            None => Err(does_not_exist(name)),
            Some(i) => {
                self.current_buffer = String::from_str(name);
                proof {
                    assert(entry_key(self.buffers@[i as int]) == self.current_buffer@);
                }
                Ok(())
            },
        }
    }

    /// Opens `buffer`, kept under its own name, unless a buffer of that name is open.
    pub fn add_buffer(&mut self, buffer: Buffer) -> (r: Result<(), NeomacsError>)
        requires
            old(self).wf(),
        ensures
            final(self).wf(),
            final(self).spec_current() == old(self).spec_current(),
            old(self).spec_buffers().dom().contains(buffer.spec_name()) ==> final(self).spec_buffers() == old(self).spec_buffers()
                && (r matches Err(NeomacsError::AlreadyExists(m)) && m@ == "Buffer "@ + buffer.spec_name()),
            !old(self).spec_buffers().dom().contains(buffer.spec_name()) ==> r is Ok
                && final(self).spec_buffers() == old(self).spec_buffers().insert(buffer.spec_name(), buffer),
    {
        let ghost f = |e: (String, Buffer)| entry_key(e);
        let name = String::from_str(buffer.name());
        match self.find(name.as_str()) {
            Some(_) => Err(already_exists(name.as_str())),
            None => {
                let ghost old_entries = self.buffers@;
                let ghost e = (name, buffer);
                self.buffers.push((name, buffer));
                proof {
                    lemma_push(old_entries, f, e);
                    assert(self.buffers@ == old_entries.push(e));
                    lemma_to_map_dom(old_entries, f, self.current_buffer@);
                    lemma_to_map_dom(self.buffers@, f, self.current_buffer@);
                    assert(self.spec_buffers() =~= old(self).spec_buffers().insert(buffer.spec_name(), buffer));
                }
                Ok(())
            },
        }
    }
}

impl Default for BufferState {
    /// One untitled, empty buffer, which is current.
    fn default() -> (s: Self)
        ensures
            s.wf(),
            s.spec_current() == UNTITLED@,
            s.spec_buffers().dom() == set![UNTITLED@],
            Buffer::is_fresh(s.spec_buffers()[UNTITLED@], UNTITLED@),
    {
        Self::untitled()
    }
}

impl BufferState {
    /// The index of a buffer kept under another name than `name`, if there is one.
    fn find_other(&self, name: &str) -> (r: Option<usize>)
        ensures
            match r {
                Some(i) => i < self.buffers@.len() && entry_key(self.buffers@[i as int]) != name@,
                None => forall|j: int| 0 <= j < self.buffers@.len() ==> entry_key(#[trigger] self.buffers@[j]) == name@,
            },
    {
        let mut i: usize = 0;
        while i < self.buffers.len()
            invariant
                i <= self.buffers@.len(),
                forall|j: int| 0 <= j < i ==> entry_key(#[trigger] self.buffers@[j]) == name@,
            decreases self.buffers@.len() - i,
        {
            if !str_eq(self.buffers[i].0.as_str(), name) {
                return Some(i);
            }
            i += 1;
        }
        None
    }

    /// The buffer named `name`, if it is open, to be changed in place.
    pub fn get_buffer_mut(&mut self, name: &str) -> (r: Option<&mut Buffer>)
        requires
            old(self).wf(),
        ensures
            old(self).spec_buffers().dom().contains(name@) ==> (r matches Some(b) && *b == old(self).spec_buffers()[name@]
                && final(self).spec_buffers() == old(self).spec_buffers().insert(name@, *final(b))),
            !old(self).spec_buffers().dom().contains(name@) ==> r is None && final(self).spec_buffers() == old(self).spec_buffers(),
            final(self).wf(),
            final(self).spec_current() == old(self).spec_current(),
    {
        let ghost f = |e: (String, Buffer)| entry_key(e);
        match self.find(name) {
            Some(i) => {
                let ghost s0 = self.buffers@;
                let b = &mut self.buffers[i].1;
                proof {
                    lemma_update(s0, f, i as int, (s0[i as int].0, *final(b)));
                    lemma_to_map_dom(s0, f, self.current_buffer@);
                    lemma_to_map_dom(s0.update(i as int, (s0[i as int].0, *final(b))), f, self.current_buffer@);
                    assert(old(self).spec_buffers().insert(name@, *final(b)) =~= to_map(s0, f).insert(name@, (s0[i as int].0, *final(b))).map_values(|e: (String, Buffer)| e.1));
                }
                Some(b)
            },
            None => None,
        }
    }
}

impl BufferState {
    /// The current buffer, to be changed in place.
    pub fn current_buffer_mut(&mut self) -> (r: &mut Buffer)
        requires
            old(self).wf(),
        ensures
            *r == old(self).spec_buffers()[old(self).spec_current()],
            final(self).spec_buffers() == old(self).spec_buffers().insert(old(self).spec_current(), *final(r)),
            final(self).wf(),
            final(self).spec_current() == old(self).spec_current(),
    {
        proof { self.lemma_current(); }
        let ghost f = |e: (String, Buffer)| entry_key(e);
        let i = match self.find(self.current_buffer.as_str()) {
            Some(i) => i,
            None => {
                proof { assert(false); }
                0
            },
        };
        let ghost s0 = self.buffers@;
        let ghost c = self.current_buffer@;
        let b = &mut self.buffers[i].1;
        proof {
            lemma_update(s0, f, i as int, (s0[i as int].0, *final(b)));
            lemma_to_map_dom(s0, f, c);
            lemma_to_map_dom(s0.update(i as int, (s0[i as int].0, *final(b))), f, c);
            assert(old(self).spec_buffers().insert(c, *final(b)) =~= to_map(s0, f).insert(c, (s0[i as int].0, *final(b))).map_values(|e: (String, Buffer)| e.1));
        }
        b
    }

    /// Closes the buffer named `name`. Where it is the current buffer,
    /// another open buffer becomes current; where there is no other, a new
    /// untitled buffer is opened and becomes current, which fails where the
    /// buffer to close is itself the untitled one.
    pub fn delete_buffer(&mut self, name: &str) -> (r: Result<(), NeomacsError>)
        requires
            old(self).wf(),
        ensures
            final(self).wf(),
            !old(self).spec_buffers().dom().contains(name@) ==> r is Ok
                && final(self).spec_buffers() == old(self).spec_buffers()
                && final(self).spec_current() == old(self).spec_current(),
            old(self).spec_buffers().dom().contains(name@) && name@ != old(self).spec_current() ==> r is Ok
                && final(self).spec_buffers() == old(self).spec_buffers().remove(name@)
                && final(self).spec_current() == old(self).spec_current(),
            name@ == old(self).spec_current() && (exists|k: Seq<char>| old(self).spec_buffers().dom().contains(k) && k != name@)
                ==> r is Ok
                && final(self).spec_buffers() == old(self).spec_buffers().remove(name@)
                && final(self).spec_current() != name@,
            name@ == old(self).spec_current() && (forall|k: Seq<char>| old(self).spec_buffers().dom().contains(k) ==> k == name@)
                && name@ == UNTITLED@ ==> final(self).spec_buffers() == old(self).spec_buffers()
                && final(self).spec_current() == old(self).spec_current()
                && (r matches Err(NeomacsError::AlreadyExists(m)) && m@ == "Buffer "@ + UNTITLED@),
            name@ == old(self).spec_current() && (forall|k: Seq<char>| old(self).spec_buffers().dom().contains(k) ==> k == name@)
                && name@ != UNTITLED@ ==> r is Ok
                && final(self).spec_buffers().dom() == set![UNTITLED@]
                && Buffer::is_fresh(final(self).spec_buffers()[UNTITLED@], UNTITLED@)
                && final(self).spec_current() == UNTITLED@,
    {
        let ghost f = |e: (String, Buffer)| entry_key(e);
        let ghost mut added_untitled = false;
        proof { self.lemma_current(); }
        if str_eq(self.current_buffer.as_str(), name) {
            match self.find_other(name) {
                Some(j) => {
                    proof {
                        lemma_to_map_dom(self.buffers@, f, self.buffers@[j as int].0@);
                        assert(old(self).spec_buffers().dom().contains(self.buffers@[j as int].0@));
                    }
                    self.current_buffer = self.buffers[j].0.clone();
                    proof { assert(f(self.buffers@[j as int]) == self.current_buffer@); }
                },
                None => {
                    proof {
                        assert forall|k: Seq<char>| old(self).spec_buffers().dom().contains(k) implies k == name@ by {
                            lemma_to_map_dom(self.buffers@, f, k);
                            let j = choose|j: int| 0 <= j < self.buffers@.len() && f(#[trigger] self.buffers@[j]) == k;
                            assert(entry_key(self.buffers@[j]) == name@);
                        }
                    }
                    let empty_buf = Buffer::default();
                    proof { reveal_strlit("(untitled)"); }
                    let ghost eb = empty_buf;
                    assert(eb.spec_name() == UNTITLED@);
                    let added = self.add_buffer(empty_buf);
                    match added {
                        Err(e) => {
                            proof {
                                if !old(self).spec_buffers().dom().contains(UNTITLED@) {
                                    assert(added is Ok);
                                }
                                assert(old(self).spec_buffers().dom().contains(UNTITLED@));
                                assert(name@ == UNTITLED@);
                            }
                            return Err(e);
                        },
                        Ok(()) => {},
                    }
                    assert(self.spec_buffers() == old(self).spec_buffers().insert(UNTITLED@, eb));
                    assert(self.spec_buffers().dom().contains(UNTITLED@));
                    let ghost before = self.buffers@;
                    let ghost untitled_idx = index_of(before, f, UNTITLED@);
                    proof {
                        lemma_to_map_dom(before, f, UNTITLED@);
                        lemma_index_of(before, f, UNTITLED@);
                    }
                    self.current_buffer = String::from_str(UNTITLED);
                    proof {
                        assert(f(self.buffers@[untitled_idx]) == self.current_buffer@);
                        assert(!old(self).spec_buffers().dom().contains(UNTITLED@));
                        assert(name@ != UNTITLED@);
                        added_untitled = true;
                        assert(old(self).spec_buffers().dom() =~= set![name@]);
                    }
                },
            }
        }
        let ghost mid = self.buffers@;
        let ghost mid_self = *self;
        match self.find(name) {
            Some(i) => {
                proof {
                    assert(self.current_buffer@ != name@);
                    lemma_remove(mid, f, i as int);
                    lemma_to_map_dom(mid, f, self.current_buffer@);
                }
                let _removed = self.buffers.remove(i);
                proof {
                    lemma_to_map_dom(self.buffers@, f, self.current_buffer@);
                    assert(self.spec_buffers() =~= mid_self.spec_buffers().remove(name@));
                    if added_untitled {
                        assert(self.spec_buffers().dom() =~= set![UNTITLED@]);
                    }
                }
            },
            None => {},
        }
        Ok(())
    }
}

impl BufferState {
    /// Renames the buffer named `old_name` to `new_name`, unless a buffer
    /// named `new_name` is open. Where `old_name` is the current buffer, it
    /// stays current under its new name. Renaming a buffer that is not open
    /// changes nothing.
    pub fn rename_buffer(&mut self, old_name: &str, new_name: &str) -> (r: Result<(), NeomacsError>)
        requires
            old(self).wf(),
        ensures
            final(self).wf(),
            old(self).spec_buffers().dom().contains(new_name@) ==> final(self).spec_buffers() == old(self).spec_buffers()
                && final(self).spec_current() == old(self).spec_current()
                && (r matches Err(NeomacsError::AlreadyExists(m)) && m@ == "Buffer "@ + new_name@),
            !old(self).spec_buffers().dom().contains(new_name@) && !old(self).spec_buffers().dom().contains(old_name@)
                ==> r is Ok && final(self).spec_buffers() == old(self).spec_buffers()
                && final(self).spec_current() == old(self).spec_current(),
            !old(self).spec_buffers().dom().contains(new_name@) && old(self).spec_buffers().dom().contains(old_name@)
                ==> r is Ok
                && final(self).spec_buffers().dom() == old(self).spec_buffers().dom().remove(old_name@).insert(new_name@)
                && (forall|k: Seq<char>| #[trigger] final(self).spec_buffers().dom().contains(k) && k != new_name@
                    ==> final(self).spec_buffers()[k] == old(self).spec_buffers()[k])
                && final(self).spec_buffers()[new_name@].spec_name() == new_name@
                && Buffer::renamed(old(self).spec_buffers()[old_name@], final(self).spec_buffers()[new_name@])
                && final(self).spec_current() == (if old(self).spec_current() == old_name@ { new_name@ } else { old(self).spec_current() }),
    {
        let ghost f = |e: (String, Buffer)| entry_key(e);
        if self.find(new_name).is_some() {
            return Err(already_exists(new_name));
        }
        match self.find(old_name) {
            Some(i) => {
                let ghost s0 = self.buffers@;
                proof {
                    lemma_remove(s0, f, i as int);
                }
                let (_, mut buf) = self.buffers.remove(i);
                let ghost ob = buf;
                buf.name = String::from_str(new_name);
                let ghost nb = buf;
                let ghost s1 = self.buffers@;
                proof {
                    lemma_to_map_dom(s1, f, new_name@);
                    assert(!has_key(s1, f, new_name@));
                }
                let key = String::from_str(new_name);
                let ghost entry = (key, nb);
                self.buffers.push((key, buf));
                proof {
                    lemma_push(s1, f, entry);
                }
                if str_eq(self.current_buffer.as_str(), old_name) {
                    self.current_buffer = String::from_str(new_name);
                }
                proof {
                    lemma_to_map_dom(self.buffers@, f, self.current_buffer@);
                    lemma_to_map_dom(s0, f, old(self).current_buffer@);
                    if self.current_buffer@ != new_name@ {
                        lemma_to_map_dom(s1, f, self.current_buffer@);
                    }
                    assert(self.spec_buffers().dom() =~= old(self).spec_buffers().dom().remove(old_name@).insert(new_name@));
                }
                Ok(())
            },
            None => Ok(()),
        }
    }
}

} // verus!
