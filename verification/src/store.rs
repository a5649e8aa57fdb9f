use vstd::prelude::*;
use vstd::string::*;
use crate::clock::{time_key, time_key_of};
use crate::note::Note;
use crate::order::{
    is_stable_sort_desc, keeps_ties_in_order, keys_descending, lemma_permutation_onto, rearranged_by,
    sort_items_desc,
};
use crate::text::chars_of;

verus! {

broadcast use vstd::string::group_string_axioms;

/// `comp` appended to the path `base` the way `PathBuf::push` does on Unix: an
/// absolute `comp` replaces `base`; otherwise a `/` goes between them unless
/// `base` is empty or already ends with one.
pub open spec fn join_path(base: Seq<char>, comp: Seq<char>) -> Seq<char> {
    if comp.len() > 0 && comp[0] == '/' {
        comp
    } else if base.len() == 0 || base.last() == '/' {
        base + comp
    } else {
        base + seq!['/'] + comp
    }
}

/// The directory that the notes live in, under the configuration directory
/// (or the current directory when there is none).
pub open spec fn notes_dir(config_dir: Option<Seq<char>>) -> Seq<char> {
    let root = match config_dir {
        Some(d) => d,
        None => "."@,
    };
    join_path(join_path(root, "herdr"@), "quicknotes"@)
}

/// The name of the file that holds the note with identifier `id`.
pub open spec fn note_file_name(id: Seq<char>) -> Seq<char> {
    id + ".json"@
}

/// Whether a directory entry of this name is a note file: its extension, as
/// `Path::extension` finds it (the text after the last `.`, where something
/// stands before that `.`), is `json`.
pub open spec fn is_note_file_name(name: Seq<char>) -> bool {
    name.len() >= 6 && name.subrange(name.len() - 5, name.len() as int) == ".json"@
}

/// The sort key of a note: when it last changed.
pub open spec fn updated_key() -> spec_fn(Note) -> int {
    |n: Note| time_key(n.updated_at)
}

/// Appends the path component `comp` to `base`.
pub fn join_path_str(base: &str, comp: &str) -> (r: String)
    ensures
        r@ == join_path(base@, comp@),
{
    proof {
        reveal_strlit("/");
    }
    let cs = chars_of(comp);
    if cs.len() > 0 && cs[0] == '/' {
        return String::from_str(comp);
    }
    let bs = chars_of(base);
    let mut r = String::from_str(base);
    if bs.len() > 0 && bs[bs.len() - 1] != '/' {
        r.append("/");
    }
    r.append(comp);
    r
}

/// Where the notes are kept: one JSON file per note in a directory.
pub struct NoteStore {
    base_dir: String,
}

impl View for NoteStore {
    type V = Seq<char>;

    /// The directory, as a path.
    closed spec fn view(&self) -> Seq<char> {
        self.base_dir@
    }
}

/// One entry of the notes directory as the caller found it: its file name and,
/// when the file could be read and parsed, the note it holds.
pub struct ListedFile {
    pub file_name: String,
    pub note: Option<Note>,
}

/// The notes among the listed files: those with a note file name that held a
/// note, in directory order.
pub open spec fn listed_notes(files: Seq<ListedFile>) -> Seq<Note>
    decreases files.len(),
{
    if files.len() == 0 {
        Seq::empty()
    } else {
        let rest = listed_notes(files.drop_last());
        let f = files.last();
        match f.note {
            Some(n) => if is_note_file_name(f.file_name@) {
                rest.push(n)
            } else {
                rest
            },
            None => rest,
        }
    }
}

impl NoteStore {
    /// The store under the given configuration directory: `herdr/quicknotes`
    /// inside it, or inside `.` when there is none.
    pub fn new(config_dir: Option<String>) -> (s: NoteStore)
        ensures
            s@ == notes_dir(
                match config_dir {
                    Some(d) => Some(d@),
                    None => None,
                },
            ),
    {
        let root = match config_dir {
            Some(d) => d,
            None => String::from_str("."),
        };
        let herdr = join_path_str(root.as_str(), "herdr");
        let dir = join_path_str(herdr.as_str(), "quicknotes");
        NoteStore { base_dir: dir }
    }

    /// The directory of the store.
    pub fn base_dir(&self) -> (r: &str)
        ensures
            r@ == self@,
    {
        self.base_dir.as_str()
    }

    /// The path of the file for the note with identifier `id`: `<id>.json`
    /// directly in the store's directory, or `None` when `id` is not a note
    /// identifier (empty, or holding a `/` that would lead elsewhere).
    pub fn note_path(&self, id: &str) -> (r: Option<String>)
        ensures
            match r {
                Some(p) => is_note_id(id@) && p@ == dir_prefix(self@) + note_file_name(id@),
                None => !is_note_id(id@),
            },
    {
        let cs = chars_of(id);
        let n = cs.len();
        if n == 0 {
            return None;
        }
        let mut i: usize = 0;
        while i < n
            invariant
                cs@ == id@,
                n == cs@.len(),
                i <= n,
                forall|j: int| 0 <= j < i ==> cs@[j] != '/',
            decreases n - i,
        {
            if cs[i] == '/' {
                return None;
            }
            i = i + 1;
        }
        let mut name = String::from_str(id);
        name.append(".json");
        proof {
            lemma_note_file_in_store(*self, id@);
        }
        Some(join_path_str(self.base_dir.as_str(), name.as_str()))
    }

    /// Whether a directory entry of this name holds a note.
    pub fn is_note_file(name: &str) -> (b: bool)
        ensures
            b == is_note_file_name(name@),
    {
        proof {
            reveal_strlit(".json");
        }
        let cs = chars_of(name);
        let n = cs.len();
        if n < 6 {
            return false;
        }
        let b = cs[n - 5] == '.' && cs[n - 4] == 'j' && cs[n - 3] == 's' && cs[n - 2] == 'o' && cs[n
            - 1] == 'n';
        let ghost sub = name@.subrange(n - 5, n as int);
        let ghost lit = ".json"@;
        assert(lit.len() == 5 && lit[0] == '.' && lit[1] == 'j' && lit[2] == 's' && lit[3] == 'o'
            && lit[4] == 'n');
        if b {
            assert(sub =~= lit);
        } else {
            assert(sub != lit) by {
                if sub == lit {
                    assert(sub[0] == lit[0] && sub[1] == lit[1] && sub[2] == lit[2] && sub[3]
                        == lit[3] && sub[4] == lit[4]);
                }
            }
        }
        b
    }

    /// The notes of the listed directory entries, newest change first; notes
    /// changed at the same instant keep their directory order.
    pub fn list(&self, files: Vec<ListedFile>) -> (notes: Vec<Note>)
        ensures
            is_stable_sort_desc(listed_notes(files@), notes@, updated_key()),
            forall|k1: int, k2: int|
                0 <= k1 < k2 < notes@.len() ==> time_key(#[trigger] notes@[k1].updated_at) >= time_key(
                    #[trigger] notes@[k2].updated_at,
                ),
    {
        let ghost all = files@;
        let n = files.len();
        let mut rest = files;
        let mut kept: Vec<Note> = Vec::new();
        let mut keys: Vec<i128> = Vec::new();
        let mut i: usize = 0;
        while i < n
            invariant
                n == all.len(),
                i <= n,
                rest@ == all.subrange(i as int, n as int),
                kept@ == listed_notes(all.take(i as int)),
                keys@.len() == kept@.len(),
                forall|k: int| 0 <= k < kept@.len() ==> keys@[k] as int == updated_key()(#[trigger] kept@[k]),
            decreases n - i,
        {
            let f = rest.remove(0);
            proof {
                assert(all.take(i + 1).drop_last() =~= all.take(i as int));
                assert(all.take(i + 1).last() == f);
            }
            let ListedFile { file_name, note } = f;
            match note {
                Some(nt) => {
                    if NoteStore::is_note_file(file_name.as_str()) {
                        keys.push(time_key_of(nt.updated_at));
                        kept.push(nt);
                    }
                },
                None => {},
            }
            i = i + 1;
        }
        assert(all.take(n as int) =~= all);
        let sorted = sort_items_desc(kept, &keys, Ghost(updated_key()));
        proof {
            lemma_list_newest_change_first(all, sorted@);
        }
        sorted
    }
}

/// The list puts the most recently changed note first: along the list, the
/// time of each note's last change (not its creation) never increases, and
/// notes changed at the same instant keep their directory order.
pub proof fn lemma_list_newest_change_first(files: Seq<ListedFile>, listed: Seq<Note>)
    requires
        is_stable_sort_desc(listed_notes(files), listed, updated_key()),
    ensures
        forall|k1: int, k2: int|
            0 <= k1 < k2 < listed.len() ==> time_key(#[trigger] listed[k1].updated_at) >= time_key(
                #[trigger] listed[k2].updated_at,
            ),
        exists|p: Seq<int>|
            #[trigger] rearranged_by(listed_notes(files), listed, p) && forall|k1: int, k2: int|
                0 <= k1 < k2 < listed.len() && time_key(#[trigger] listed[k1].updated_at) == time_key(
                    #[trigger] listed[k2].updated_at,
                ) ==> p[k1] < p[k2],
{
    let input = listed_notes(files);
    let p = choose|p: Seq<int>|
        #[trigger] rearranged_by(input, listed, p) && keys_descending(listed, updated_key())
            && keeps_ties_in_order(listed, p, updated_key());
    assert forall|k1: int, k2: int| 0 <= k1 < k2 < listed.len() implies time_key(
        #[trigger] listed[k1].updated_at,
    ) >= time_key(#[trigger] listed[k2].updated_at) by {
        assert(updated_key()(listed[k1]) >= updated_key()(listed[k2]));
    }
    assert forall|k1: int, k2: int|
        0 <= k1 < k2 < listed.len() && time_key(#[trigger] listed[k1].updated_at) == time_key(
            #[trigger] listed[k2].updated_at,
        ) implies p[k1] < p[k2] by {
        assert(updated_key()(listed[k1]) == updated_key()(listed[k2]));
    }
    assert(rearranged_by(input, listed, p));
}

/// A note saved under its identifier shows up when the directory is listed:
/// the name of its file is a note file name whenever the identifier is not
/// empty.
pub proof fn lemma_saved_note_is_listed(id: Seq<char>)
    requires
        id.len() > 0,
    ensures
        is_note_file_name(note_file_name(id)),
{
    reveal_strlit(".json");
    let f = note_file_name(id);
    assert(f.subrange(f.len() - 5, f.len() as int) =~= ".json"@);
}

proof fn lemma_listed_contains(files: Seq<ListedFile>, idx: int, n: Note)
    requires
        0 <= idx < files.len(),
        files[idx].note == Some(n),
        is_note_file_name(files[idx].file_name@),
    ensures
        listed_notes(files).contains(n),
    decreases files.len(),
{
    let rest = listed_notes(files.drop_last());
    if idx == files.len() - 1 {
        assert(listed_notes(files) == rest.push(n));
        assert(listed_notes(files)[rest.len() as int] == n);
    } else {
        assert(files.drop_last()[idx] == files[idx]);
        lemma_listed_contains(files.drop_last(), idx, n);
        let k = choose|k: int| 0 <= k < rest.len() && rest[k] == n;
        assert(listed_notes(files)[k] == n);
    }
}

/// A note that was saved is listed again: when the listed directory holds
/// its file, named after its non-empty identifier, and that file gives the
/// note back, the list of the store holds the note.
pub proof fn lemma_saved_note_listed_again(files: Seq<ListedFile>, idx: int, n: Note, listed: Seq<Note>)
    requires
        0 <= idx < files.len(),
        n.id@.len() > 0,
        files[idx].file_name@ == note_file_name(n.id@),
        files[idx].note == Some(n),
        is_stable_sort_desc(listed_notes(files), listed, updated_key()),
    ensures
        listed.contains(n),
{
    lemma_saved_note_is_listed(n.id@);
    lemma_listed_contains(files, idx, n);
    let input = listed_notes(files);
    let j = choose|j: int| 0 <= j < input.len() && input[j] == n;
    let p = choose|p: Seq<int>|
        #[trigger] rearranged_by(input, listed, p) && keys_descending(listed, updated_key())
            && keeps_ties_in_order(listed, p, updated_key());
    lemma_permutation_onto(p, input.len() as int, j);
    let k = choose|k: int| 0 <= k < p.len() && p[k] == j;
    assert(listed[k] == n);
}

/// The directory part of a path inside `dir`: `dir` and a `/` unless it is
/// empty or already ends with one.
pub open spec fn dir_prefix(dir: Seq<char>) -> Seq<char> {
    if dir.len() == 0 || dir.last() == '/' {
        dir
    } else {
        dir + seq!['/']
    }
}

/// The file of a note whose identifier holds no `/` lies directly in the
/// store's directory.
pub proof fn lemma_note_file_in_store(store: NoteStore, id: Seq<char>)
    requires
        !id.contains('/'),
    ensures
        join_path(store@, note_file_name(id)) == dir_prefix(store@) + note_file_name(id),
        !note_file_name(id).contains('/'),
{
    reveal_strlit(".json");
    let f = note_file_name(id);
    if id.len() > 0 {
        assert(f[0] == id[0]);
    } else {
        assert(f[0] == '.');
    }
    assert(!f.contains('/')) by {
        if f.contains('/') {
            let i = choose|i: int| 0 <= i < f.len() && f[i] == '/';
            if i < id.len() {
                assert(id[i] == '/');
            }
        }
    }
}

/// A note identifier: not empty and without `/`, so that the note's file is
/// a direct child of the store's directory.
pub open spec fn is_note_id(id: Seq<char>) -> bool {
    id.len() > 0 && !id.contains('/')
}

/// Distinct note identifiers are kept in distinct files.
pub proof fn lemma_note_paths_distinct(store: NoteStore, id1: Seq<char>, id2: Seq<char>)
    requires
        id1 != id2,
        is_note_id(id1),
        is_note_id(id2),
    ensures
        dir_prefix(store@) + note_file_name(id1) != dir_prefix(store@) + note_file_name(id2),
{
    reveal_strlit(".json");
    let pre = dir_prefix(store@);
    let f1 = note_file_name(id1);
    let f2 = note_file_name(id2);
    let p1 = pre + f1;
    let p2 = pre + f2;
    if p1 == p2 {
        assert(f1 =~= p1.subrange(pre.len() as int, p1.len() as int));
        assert(f2 =~= p2.subrange(pre.len() as int, p2.len() as int));
        assert(id1 =~= f1.subrange(0, f1.len() - 5));
        assert(id2 =~= f2.subrange(0, f2.len() - 5));
    }
}

} // verus!
