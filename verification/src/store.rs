//! The path-scoped file store: filenames resolve against one base
//! directory and must stay inside it. The store is modelled by the map from
//! each stored name to its current content; storing under an existing name
//! overwrites, and opening a name never stored is not found.

use vstd::prelude::*;
use vstd::slice::slice_to_vec;
use vstd::string::StringSliceAdditionalSpecFns;

use crate::types::StorageError;

verus! {

/// A caller-supplied filename is safe when, resolved against the base
/// directory, it cannot name anything outside it: it is non-empty and its
/// UTF-8 bytes hold no path separator (`/` or `\`), no NUL, no colon (a
/// drive-designator prefix such as `C:` would replace the base path
/// entirely on Windows), and are neither `.` nor `..`.
pub open spec fn safe_name(name: Seq<char>) -> bool {
    let b = vstd::utf8::encode_utf8(name);
    &&& b.len() > 0
    &&& (forall|i: int|
        0 <= i < b.len() ==> b[i] != 47u8 && b[i] != 92u8 && b[i] != 0u8 && b[i] != 58u8)
    &&& b != seq![46u8]
    &&& b != seq![46u8, 46u8]
}

/// Decides `safe_name` for a filename.
pub fn name_is_safe(name: &str) -> (r: bool)
    ensures
        r == safe_name(name@),
{
    let b = name.as_bytes();
    proof {
        assert(b@ == vstd::utf8::encode_utf8(name@));
    }
    if b.len() == 0 {
        return false;
    }
    if b.len() == 1 && b[0] == 46 {
        proof {
            assert(b@ =~= seq![46u8]);
        }
        return false;
    }
    if b.len() == 2 && b[0] == 46 && b[1] == 46 {
        proof {
            assert(b@ =~= seq![46u8, 46u8]);
        }
        return false;
    }
    let mut i: usize = 0;
    while i < b.len()
        invariant
            b@ == vstd::utf8::encode_utf8(name@),
            i <= b@.len(),
            forall|j: int|
                0 <= j < i ==> b@[j] != 47u8 && b@[j] != 92u8 && b@[j] != 0u8 && b@[j] != 58u8,
        decreases b@.len() - i,
    {
        let x = b[i];
        if x == 47 || x == 92 || x == 0 || x == 58 {
            return false;
        }
        i = i + 1;
    }
    proof {
        if b@ == seq![46u8] {
            assert(b@.len() == 1 && b@[0] == 46u8);
        }
        if b@ == seq![46u8, 46u8] {
            assert(b@.len() == 2 && b@[0] == 46u8);
        }
    }
    true
}

/// One stored file: its name and its byte content.
pub struct StoredFile {
    pub name: String,
    pub content: Vec<u8>,
}

/// The directory that a sequence of stored files presents: a later entry
/// for the same name overwrites an earlier one.
pub open spec fn entries_map(s: Seq<StoredFile>) -> Map<Seq<char>, Seq<u8>>
    decreases s.len(),
{
    if s.len() == 0 {
        Map::empty()
    } else {
        entries_map(s.drop_last()).insert(s.last().name@, s.last().content@)
    }
}

/// No two entries name the same file.
pub open spec fn unique_names(s: Seq<StoredFile>) -> bool {
    forall|i: int, j: int| 0 <= i < j < s.len() ==> s[i].name@ != s[j].name@
}

/// A name stands in the directory exactly when some entry bears it.
proof fn lemma_entries_map_contains(s: Seq<StoredFile>, k: Seq<char>)
    ensures
        entries_map(s).contains_key(k) <==> exists|i: int|
            0 <= i < s.len() && s[i].name@ == k,
    decreases s.len(),
{
    if s.len() == 0 {
    } else {
        lemma_entries_map_contains(s.drop_last(), k);
        if entries_map(s).contains_key(k) {
            if k == s.last().name@ {
                assert(s[s.len() - 1].name@ == k);
            } else {
                let i = choose|i: int|
                    0 <= i < s.drop_last().len() && s.drop_last()[i].name@ == k;
                assert(s[i].name@ == k);
            }
        }
        if exists|i: int| 0 <= i < s.len() && s[i].name@ == k {
            let i = choose|i: int| 0 <= i < s.len() && s[i].name@ == k;
            if i < s.len() - 1 {
                assert(s.drop_last()[i].name@ == k);
                assert(entries_map(s.drop_last()).contains_key(k));
            }
        }
    }
}

/// With unique names, the directory maps each entry's name to its content.
proof fn lemma_entries_map_value(s: Seq<StoredFile>, i: int)
    requires
        unique_names(s),
        0 <= i < s.len(),
    ensures
        entries_map(s).contains_key(s[i].name@),
        entries_map(s)[s[i].name@] == s[i].content@,
    decreases s.len(),
{
    if i == s.len() - 1 {
    } else {
        assert(unique_names(s.drop_last()));
        assert(s.drop_last()[i] == s[i]);
        lemma_entries_map_value(s.drop_last(), i);
        assert(s[i].name@ != s.last().name@);
    }
}

/// Replacing the entry that bears a name updates the directory exactly as
/// an insert of the new content under that name.
proof fn lemma_entries_map_update(s: Seq<StoredFile>, i: int, f: StoredFile)
    requires
        unique_names(s),
        0 <= i < s.len(),
        f.name@ == s[i].name@,
    ensures
        entries_map(s.update(i, f)) == entries_map(s).insert(f.name@, f.content@),
        unique_names(s.update(i, f)),
    decreases s.len(),
{
    let su = s.update(i, f);
    assert(unique_names(su));
    if i == s.len() - 1 {
        assert(su.drop_last() =~= s.drop_last());
        assert(su.last() == f);
        assert(entries_map(s.drop_last()).insert(s.last().name@, s.last().content@)
            .insert(f.name@, f.content@)
            =~= entries_map(s.drop_last()).insert(f.name@, f.content@));
    } else {
        assert(unique_names(s.drop_last()));
        assert(s.drop_last()[i] == s[i]);
        lemma_entries_map_update(s.drop_last(), i, f);
        assert(su.drop_last() =~= s.drop_last().update(i, f));
        assert(su.last() == s.last());
        assert(f.name@ != s.last().name@);
        assert(entries_map(s.drop_last()).insert(f.name@, f.content@)
            .insert(s.last().name@, s.last().content@)
            =~= entries_map(s.drop_last()).insert(s.last().name@, s.last().content@)
            .insert(f.name@, f.content@));
    }
}

/// Appending an entry with a fresh name inserts it into the directory.
proof fn lemma_entries_map_push(s: Seq<StoredFile>, f: StoredFile)
    requires
        unique_names(s),
        forall|t: int| 0 <= t < s.len() ==> s[t].name@ != f.name@,
    ensures
        entries_map(s.push(f)) == entries_map(s).insert(f.name@, f.content@),
        unique_names(s.push(f)),
{
    assert(s.push(f).drop_last() =~= s);
    assert(s.push(f).last() == f);
    assert(unique_names(s.push(f)));
}

/// The store of files under one shared base directory. The base path itself
/// is fixed at startup, so the store's observable state is the map from
/// stored names to contents.
pub struct FileStore {
    entries: Vec<StoredFile>,
}

impl View for FileStore {
    type V = Map<Seq<char>, Seq<u8>>;

    closed spec fn view(&self) -> Map<Seq<char>, Seq<u8>> {
        entries_map(self.entries@)
    }
}

impl FileStore {
    /// Internal invariant: entry names are pairwise distinct, so each name
    /// has one current content.
    pub closed spec fn wf(&self) -> bool {
        unique_names(self.entries@)
    }

    /// An empty store.
    pub fn new() -> (r: FileStore)
        ensures
            r.wf(),
            r@ == Map::<Seq<char>, Seq<u8>>::empty(),
    {
        FileStore { entries: Vec::new() }
    }

    /// The index of the entry bearing a name, if any.
    fn find_entry(&self, name: &String) -> (r: Option<usize>)
        ensures
            match r {
                Some(j) => j < self.entries@.len() && self.entries@[j as int].name@ == name@,
                None => forall|t: int|
                    0 <= t < self.entries@.len() ==> self.entries@[t].name@ != name@,
            },
    {
        let mut j: usize = 0;
        while j < self.entries.len()
            invariant
                j <= self.entries@.len(),
                forall|t: int| 0 <= t < j ==> self.entries@[t].name@ != name@,
            decreases self.entries@.len() - j,
        {
            if self.entries[j].name == *name {
                return Some(j);
            }
            j = j + 1;
        }
        None
    }

    /// Stores a payload under a safe name, creating the file or silently
    /// overwriting the previous content. An unsafe name is rejected before
    /// anything is touched.
    pub fn save_file(&mut self, name: &String, content: Vec<u8>) -> (r: Result<
        (),
        StorageError,
    >)
        requires
            old(self).wf(),
        ensures
            final(self).wf(),
            safe_name(name@) ==> r == Ok::<(), StorageError>(()) && final(self)@ == old(
                self,
            )@.insert(name@, content@),
            !safe_name(name@) ==> r == Err::<(), StorageError>(StorageError::InvalidName)
                && *final(self) == *old(self),
    {
        if !name_is_safe(name.as_str()) {
            return Err(StorageError::InvalidName);
        }
        match self.find_entry(name) {
            Some(j) => {
                let f = StoredFile { name: name.clone(), content };
                proof {
                    lemma_entries_map_update(self.entries@, j as int, f);
                }
                self.entries[j] = f;
            }
            None => {
                let f = StoredFile { name: name.clone(), content };
                proof {
                    lemma_entries_map_push(self.entries@, f);
                }
                self.entries.push(f);
            }
        }
        Ok(())
    }

    /// Opens a stored file and yields a copy of its content; a name never
    /// stored is not found.
    pub fn open_file(&self, name: &String) -> (r: Result<Vec<u8>, StorageError>)
        requires
            self.wf(),
        ensures
            self@.contains_key(name@) ==> (r matches Ok(c) && c@ == self@[name@]),
            !self@.contains_key(name@) ==> r == Err::<Vec<u8>, StorageError>(
                StorageError::NotFound,
            ),
    {
        proof {
            lemma_entries_map_contains(self.entries@, name@);
        }
        match self.find_entry(name) {
            Some(j) => {
                proof {
                    lemma_entries_map_value(self.entries@, j as int);
                }
                Ok(slice_to_vec(self.entries[j].content.as_slice()))
            }
            None => Err(StorageError::NotFound),
        }
    }
}

/// Overwrite law: storing twice under one name leaves exactly the state in
/// which only the second content was stored under it.
pub proof fn lemma_store_overwrite(
    m: Map<Seq<char>, Seq<u8>>,
    name: Seq<char>,
    c1: Seq<u8>,
    c2: Seq<u8>,
)
    ensures
        m.insert(name, c1).insert(name, c2) == m.insert(name, c2),
{
    assert(m.insert(name, c1).insert(name, c2) =~= m.insert(name, c2));
}

} // verus!
