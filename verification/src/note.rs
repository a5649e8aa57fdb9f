use vstd::prelude::*;
use vstd::string::*;
use crate::clock::Timestamp;
use crate::text::{
    has_no_crlf, is_trimmed, join_from, join_lines, lemma_join_prepend, lemma_lines_join,
    lemma_split_concat, lemma_split_ended_pieces, lemma_split_last, lemma_split_nonempty,
    lemma_split_without_newline, lemma_trim_leading_white, lemma_trimmed_unchanged, lines, lines_of,
    split_at_newlines, strip_carriage_return, strip_hashes, strip_leading_hashes, trim,
    trimmed, views,
};

verus! {

broadcast use vstd::string::group_string_axioms;

/// One note: a short identifier, a title, a body, when it was created and
/// last changed, and free-form tags.
#[derive(Debug)]
pub struct Note {
    pub id: String,
    pub title: String,
    pub content: String,
    pub created_at: Timestamp,
    pub updated_at: Timestamp,
    pub tags: Vec<String>,
}

impl Note {
    /// A new note: its identifier is the first eight characters of
    /// `uuid_text` (the caller draws a random UUID), and it was created and
    /// last changed at `now` (the caller reads the clock).
    pub fn new(
        uuid_text: &str,
        now: Timestamp,
        title: String,
        content: String,
        tags: Vec<String>,
    ) -> (n: Note)
        requires
            uuid_text@.len() >= 8,
        ensures
            n.id@ == uuid_text@.take(8),
            n.title == title,
            n.content == content,
            n.tags == tags,
            n.created_at == now,
            n.updated_at == now,
    {
        let id = String::from_str(uuid_text.substring_char(0, 8));
        Note { id, title, content, created_at: now, updated_at: now, tags }
    }

    /// What the clipboard receives for this note: the title, a blank line,
    /// then the body.
    pub fn clipboard_text(&self) -> (r: String)
        ensures
            r@ == clipboard_seq(self.title@, self.content@),
    {
        proof {
            reveal_strlit("\n\n");
        }
        let mut r = self.title.clone();
        r.append("\n\n");
        r.append(self.content.as_str());
        r
    }

    /// The text handed to the external editor: a `# ` heading with the title,
    /// a blank line, then the body.
    pub fn editor_text(&self) -> (r: String)
        ensures
            r@ == editor_seq(self.title@, self.content@),
    {
        proof {
            reveal_strlit("# ");
            reveal_strlit("\n\n");
        }
        let mut r = String::from_str("# ");
        r.append(self.title.as_str());
        r.append("\n\n");
        r.append(self.content.as_str());
        r
    }

    /// The name of the scratch file that the external editor opens:
    /// `quicknote_<id>.md`.
    pub fn editor_file_name(&self) -> (r: String)
        ensures
            r@ == "quicknote_"@ + self.id@ + ".md"@,
    {
        let mut r = String::from_str("quicknote_");
        r.append(self.id.as_str());
        r.append(".md");
        r
    }
}

/// Title, blank line, body.
pub open spec fn clipboard_seq(title: Seq<char>, content: Seq<char>) -> Seq<char> {
    title + seq!['\n', '\n'] + content
}

/// `# ` and the title, blank line, body.
pub open spec fn editor_seq(title: Seq<char>, content: Seq<char>) -> Seq<char> {
    seq!['#', ' '] + title + seq!['\n', '\n'] + content
}

/// The title given to an edited note whose first line is blank.
pub open spec fn untitled() -> Seq<char> {
    "Sin título"@
}

/// The first line of `s`, or nothing when `s` has no line.
pub open spec fn first_line(s: Seq<char>) -> Seq<char> {
    if lines_of(s).len() > 0 {
        lines_of(s)[0]
    } else {
        Seq::empty()
    }
}

/// The lines of `s` after the first.
pub open spec fn rest_lines(s: Seq<char>) -> Seq<Seq<char>> {
    if lines_of(s).len() > 0 {
        lines_of(s).drop_first()
    } else {
        Seq::empty()
    }
}

/// The title read back from edited text: the first line without its leading
/// `#` marks and surrounding white space, or the untitled title when nothing
/// is left.
pub open spec fn edited_title(s: Seq<char>) -> Seq<char> {
    let t = trimmed(strip_leading_hashes(first_line(s)));
    if t.len() == 0 {
        untitled()
    } else {
        t
    }
}

/// The body read back from edited text: the remaining lines joined with
/// newlines, without surrounding white space.
pub open spec fn edited_content(s: Seq<char>) -> Seq<char> {
    trimmed(join_lines(rest_lines(s)))
}

/// Reads the title and body back from the text that the editor saved.
pub fn parse_edited(text: &str) -> (r: (String, String))
    ensures
        r.0@ == edited_title(text@),
        r.1@ == edited_content(text@),
{
    let ls = lines(text);
    let first = if ls.len() > 0 {
        strip_hashes(ls[0].as_str())
    } else {
        String::new()
    };
    let t = trim(first.as_str());
    let title = if t.as_str().is_empty() {
        String::from_str("Sin título")
    } else {
        t
    };
    proof {
        if t@.len() == 0 {
            assert(t@ =~= Seq::<char>::empty());
        }
    }
    let joined = if ls.len() > 0 {
        join_from(&ls, 1)
    } else {
        String::new()
    };
    proof {
        let vs = views(ls@);
        if ls@.len() > 0 {
            assert(vs.subrange(1, ls@.len() as int) =~= vs.drop_first());
        }
    }
    let content = trim(joined.as_str());
    (title, content)
}


/// Opening a note in the external editor and saving the text unchanged gives
/// back the note's title and body, whenever the title is a single non-empty
/// line that neither begins nor ends with white space, and the body neither
/// begins nor ends with white space and holds no `"\r\n"`.
pub proof fn lemma_editor_round_trip(title: Seq<char>, content: Seq<char>)
    requires
        title.len() > 0,
        is_trimmed(title),
        !title.contains('\n'),
        is_trimmed(content),
        has_no_crlf(content),
    ensures
        edited_title(editor_seq(title, content)) == title,
        edited_content(editor_seq(title, content)) == content,
{
    let x = seq!['#', ' '] + title;
    let e = Seq::<char>::empty();
    let y = e + seq!['\n'] + content;
    let s = editor_seq(title, content);
    assert(s =~= x + seq!['\n'] + y);
    assert(!x.contains('\n')) by {
        if x.contains('\n') {
            let i = choose|i: int| 0 <= i < x.len() && x[i] == '\n';
            assert(title[i - 2] == '\n');
        }
    }
    lemma_split_without_newline(x);
    lemma_split_concat(x, y);
    lemma_split_concat(e, content);
    assert(split_at_newlines(e) == seq![e]);
    let sc = split_at_newlines(content);
    lemma_split_nonempty(content);
    let p = split_at_newlines(s);
    assert(p =~= seq![x, e] + sc);
    assert(x.last() == title.last());
    assert(strip_carriage_return(x) == x);
    assert(strip_carriage_return(e) == e);
    let ls = lines_of(s);
    let f = |l: Seq<char>| strip_carriage_return(l);
    if content.len() == 0 {
        assert(sc == seq![e]);
        assert(ls =~= seq![x, e]);
        assert(rest_lines(s) =~= seq![e]);
        assert(join_lines(seq![e]) == e);
        assert(trimmed(e) == e);
        assert(content =~= e);
    } else {
        lemma_trimmed_unchanged(content);
        assert(content.last() != '\n');
        lemma_lines_join(content);
        lemma_split_last(content);
        lemma_split_ended_pieces(content);
        assert(ls =~= seq![x, e] + sc) by {
            assert(p.last() == sc.last());
            assert forall|k: int| 0 <= k < ls.len() implies #[trigger] ls[k] == (seq![x, e]
                + sc)[k] by {
                if k >= 2 && k < p.len() - 1 {
                    assert(ls[k] == f(p[k]));
                    assert(p[k] == sc[k - 2]);
                }
            }
        }
        assert(rest_lines(s) =~= seq![e] + sc);
        lemma_join_prepend(e, sc);
        assert(join_lines(rest_lines(s)) =~= seq!['\n'] + content);
        lemma_trim_leading_white('\n', content);
    }
    assert(first_line(s) == x);
    assert(x[0] == '#');
    assert(x.drop_first() =~= seq![' '] + title);
    assert(strip_leading_hashes(x.drop_first()) == seq![' '] + title);
    assert(strip_leading_hashes(x) == seq![' '] + title);
    lemma_trim_leading_white(' ', title);
    lemma_trimmed_unchanged(title);
}

} // verus!
