use vstd::prelude::*;
use vstd::string::*;
use crate::clock::{Timestamp, chrono_utc_format, format_utc};
use crate::note::Note;
use crate::layout::{Area, centered_rect, is_centered_in, within};
use crate::text::push_char;
use crate::tui::{App, InputMode, selected_position};

verus! {

broadcast use vstd::string::group_string_axioms;

/// The decimal digit for `d` below ten.
pub open spec fn digit_char(d: nat) -> char {
    if d == 0 { '0' }
    else if d == 1 { '1' }
    else if d == 2 { '2' }
    else if d == 3 { '3' }
    else if d == 4 { '4' }
    else if d == 5 { '5' }
    else if d == 6 { '6' }
    else if d == 7 { '7' }
    else if d == 8 { '8' }
    else { '9' }
}

/// `n` written in decimal, without leading zeros.
pub open spec fn decimal(n: nat) -> Seq<char>
    decreases n,
{
    if n < 10 {
        seq![digit_char(n)]
    } else {
        decimal(n / 10).push(digit_char(n % 10))
    }
}

fn digit_of(d: usize) -> (c: char)
    requires
        d < 10,
    ensures
        c == digit_char(d as nat),
{
    if d == 0 { '0' }
    else if d == 1 { '1' }
    else if d == 2 { '2' }
    else if d == 3 { '3' }
    else if d == 4 { '4' }
    else if d == 5 { '5' }
    else if d == 6 { '6' }
    else if d == 7 { '7' }
    else if d == 8 { '8' }
    else { '9' }
}

/// Appends `n` in decimal to `s`.
pub fn push_decimal(s: &mut String, n: usize)
    ensures
        final(s)@ == old(s)@ + decimal(n as nat),
    decreases n,
{
    if n >= 10 {
        push_decimal(s, n / 10);
    }
    push_char(s, digit_of(n % 10));
    assert(s@ =~= old(s)@ + decimal(n as nat));
}

/// What `chrono` writes for the instant under the pattern, or nothing.
pub open spec fn time_label(t: Timestamp, pattern: Seq<char>) -> Seq<char> {
    match chrono_utc_format(t.secs, t.nanos, pattern) {
        Some(s) => s,
        None => Seq::empty(),
    }
}

/// Day, month, hour and minute, as the list shows them.
pub open spec fn short_pattern() -> Seq<char> {
    "%d/%m %H:%M"@
}

/// The full date and time, as the preview and the command line show them.
pub open spec fn long_pattern() -> Seq<char> {
    "%Y-%m-%d %H:%M:%S"@
}

fn time_text(t: Timestamp, pattern: &str) -> (r: String)
    ensures
        r@ == time_label(t, pattern@),
{
    match format_utc(t, pattern) {
        Some(s) => s,
        None => String::new(),
    }
}

/// The full date and time of an instant, as `chrono` writes it.
pub fn long_time_text(t: Timestamp) -> (r: String)
    ensures
        r@ == time_label(t, long_pattern()),
{
    time_text(t, "%Y-%m-%d %H:%M:%S")
}

/// One row of the notes list.
pub struct ListLine {
    pub selected: bool,
    pub title: String,
    pub date: String,
}

/// The dialog drawn over the screen, if any.
pub enum Popup {
    Nothing,
    NewTitle(String),
    NewContent(String),
    ConfirmDelete,
}

/// Everything that the notes screen shows, as text.
pub struct Screen {
    pub search_focused: bool,
    pub search_title: String,
    pub search_text: String,
    pub list_title: String,
    pub lines: Vec<ListLine>,
    pub preview_title: String,
    pub preview_text: String,
    pub footer: String,
    pub footer_is_status: bool,
    pub popup: Popup,
}

/// The help line shown while no search is under way.
pub open spec fn help_title() -> Seq<char> {
    " Buscar con '/' | [n] Nueva | [y] Copiar | [e] Editar | [d] Borrar | [q] Salir "@
}

/// The title of the search box.
pub open spec fn search_title_for(query: Seq<char>) -> Seq<char> {
    if query.len() == 0 {
        help_title()
    } else {
        " Filtrando notas "@
    }
}

/// The title of a list row: marked when selected, indented otherwise.
pub open spec fn row_title(n: Note, selected: bool) -> Seq<char> {
    (if selected { " ▶ "@ } else { "   "@ }) + n.title@
}

/// The date of a list row.
pub open spec fn row_date(n: Note) -> Seq<char> {
    " ["@ + time_label(n.updated_at, short_pattern()) + "]"@
}

/// The rule under the preview header.
pub open spec fn rule() -> Seq<char> {
    "------------------------------------------------------------"@
}

/// The preview of a note: its identifier and change time, a rule, a blank
/// line, and its body.
pub open spec fn preview_of(n: Note) -> Seq<char> {
    "ID: "@ + n.id@ + " | Actualizada: "@ + time_label(n.updated_at, long_pattern()) + "\n"@
        + rule() + "\n"@ + "\n"@ + n.content@
}

/// The preview when no note is selected.
pub open spec fn empty_preview() -> Seq<char> {
    "No hay notas seleccionadas o encontradas.\nPresiona [n] para crear una nueva nota."@
}

/// The footer when there is no status message.
pub open spec fn default_footer() -> Seq<char> {
    "herdr-quicknotes v0.1.0 • QuantumEdu"@
}

/// Whether every shown position is the position of a note.
pub open spec fn shows_only_notes(a: App) -> bool {
    forall|k: int|
        0 <= k < a.filtered_indices@.len() ==> #[trigger] a.filtered_indices@[k] < a.notes@.len()
}

/// The list rows of the screen: one per shown note, in shown order.
pub open spec fn rows_match(a: App, lines: Seq<ListLine>) -> bool {
    &&& lines.len() == a.filtered_indices@.len()
    &&& forall|k: int|
        0 <= k < lines.len() ==> {
            let n = a.notes@[a.filtered_indices@[k] as int];
            &&& (#[trigger] lines[k]).selected == (k == a.selected_idx)
            &&& lines[k].title@ == row_title(n, k == a.selected_idx)
            &&& lines[k].date@ == row_date(n)
        }
}

/// The dialog for the input mode.
pub open spec fn popup_matches(a: App, p: Popup) -> bool {
    match a.input_mode {
        InputMode::NewTitle => p matches Popup::NewTitle(t) && t@ == a.new_title@,
        InputMode::NewContent => p matches Popup::NewContent(t) && t@ == a.new_content@,
        InputMode::ConfirmDelete => p is ConfirmDelete,
        _ => p is Nothing,
    }
}

fn row_of(n: &Note, selected: bool) -> (l: ListLine)
    ensures
        l.selected == selected,
        l.title@ == row_title(*n, selected),
        l.date@ == row_date(*n),
{
    let mut title = if selected {
        String::from_str(" ▶ ")
    } else {
        String::from_str("   ")
    };
    title.append(n.title.as_str());
    let mut date = String::from_str(" [");
    let t = time_text(n.updated_at, "%d/%m %H:%M");
    date.append(t.as_str());
    date.append("]");
    ListLine { selected, title, date }
}

/// The share of the terminal's width and height, in percent, that the
/// dialog of a mode takes; modes without a dialog take none.
pub open spec fn dialog_share(mode: InputMode) -> Option<(u16, u16)> {
    match mode {
        InputMode::NewTitle => Some((60u16, 20u16)),
        InputMode::NewContent => Some((70u16, 40u16)),
        InputMode::ConfirmDelete => Some((50u16, 20u16)),
        _ => None,
    }
}

/// The share of the terminal that the dialog of a mode takes.
pub fn dialog_size(mode: InputMode) -> (r: Option<(u16, u16)>)
    ensures
        r == dialog_share(mode),
{
    match mode {
        InputMode::NewTitle => Some((60, 20)),
        InputMode::NewContent => Some((70, 40)),
        InputMode::ConfirmDelete => Some((50, 20)),
        _ => None,
    }
}

impl App {
    /// Where the dialog of the current mode is drawn: the centered area of
    /// `full` with the mode's share, inside `full`; no area when the mode has
    /// no dialog.
    pub fn dialog_area(&self, full: Area) -> (r: Option<Area>)
        ensures
            match dialog_share(self.input_mode) {
                Some((w, h)) => r matches Some(c) && is_centered_in(c, w, h, full) && within(c, full),
                None => r is None,
            },
    {
        match dialog_size(self.input_mode) {
            Some((w, h)) => Some(centered_rect(w, h, full)),
            None => None,
        }
    }

    /// What the screen shows in its current state.
    pub fn screen(&self) -> (s: Screen)
        requires
            shows_only_notes(*self),
        ensures
            s.search_focused == (self.input_mode == InputMode::Search),
            s.search_title@ == search_title_for(self.search_query@),
            s.search_text@ == " 🔍 "@ + self.search_query@,
            s.list_title@ == " Notas ("@ + decimal(self.filtered_indices@.len()) + ") "@,
            rows_match(*self, s.lines@),
            match selected_position(*self) {
                Some(p) => {
                    &&& s.preview_title@ == " Vista Previa: "@ + self.notes@[p].title@ + " "@
                    &&& s.preview_text@ == preview_of(self.notes@[p])
                },
                None => {
                    &&& s.preview_title@ == " Vista Previa "@
                    &&& s.preview_text@ == empty_preview()
                },
            },
            match self.status_msg {
                Some(m) => s.footer@ == m@ && s.footer_is_status,
                None => s.footer@ == default_footer() && !s.footer_is_status,
            },
            popup_matches(*self, s.popup),
    {
        let search_title = if self.search_query.as_str().is_empty() {
            String::from_str(
                " Buscar con '/' | [n] Nueva | [y] Copiar | [e] Editar | [d] Borrar | [q] Salir ",
            )
        } else {
            String::from_str(" Filtrando notas ")
        };
        let mut search_text = String::from_str(" 🔍 ");
        search_text.append(self.search_query.as_str());
        let mut list_title = String::from_str(" Notas (");
        push_decimal(&mut list_title, self.filtered_indices.len());
        list_title.append(") ");
        let mut lines: Vec<ListLine> = Vec::new();
        let n = self.filtered_indices.len();
        let mut k: usize = 0;
        while k < n
            invariant
                n == self.filtered_indices@.len(),
                shows_only_notes(*self),
                k <= n,
                lines@.len() == k,
                forall|j: int|
                    0 <= j < k ==> {
                        let nt = self.notes@[self.filtered_indices@[j] as int];
                        &&& (#[trigger] lines@[j]).selected == (j == self.selected_idx)
                        &&& lines@[j].title@ == row_title(nt, j == self.selected_idx)
                        &&& lines@[j].date@ == row_date(nt)
                    },
            decreases n - k,
        {
            let idx = self.filtered_indices[k];
            let line = row_of(&self.notes[idx], k == self.selected_idx);
            lines.push(line);
            k = k + 1;
        }
        let (preview_title, preview_text) = match self.selected_note() {
            Some(note) => {
                let mut title = String::from_str(" Vista Previa: ");
                title.append(note.title.as_str());
                title.append(" ");
                let mut text = String::from_str("ID: ");
                text.append(note.id.as_str());
                text.append(" | Actualizada: ");
                let t = long_time_text(note.updated_at);
                text.append(t.as_str());
                text.append("\n");
                text.append("------------------------------------------------------------");
                text.append("\n");
                text.append("\n");
                text.append(note.content.as_str());
                (title, text)
            },
            None => (
                String::from_str(" Vista Previa "),
                String::from_str(
                    "No hay notas seleccionadas o encontradas.\nPresiona [n] para crear una nueva nota.",
                ),
            ),
        };
        let (footer, footer_is_status) = match &self.status_msg {
            Some(m) => (m.clone(), true),
            None => (String::from_str("herdr-quicknotes v0.1.0 • QuantumEdu"), false),
        };
        let popup = match self.input_mode {
            InputMode::NewTitle => Popup::NewTitle(self.new_title.clone()),
            InputMode::NewContent => Popup::NewContent(self.new_content.clone()),
            InputMode::ConfirmDelete => Popup::ConfirmDelete,
            _ => Popup::Nothing,
        };
        Screen {
            search_focused: self.input_mode == InputMode::Search,
            search_title,
            search_text,
            list_title,
            lines,
            preview_title,
            preview_text,
            footer,
            footer_is_status,
            popup,
        }
    }
}


/// The list shows one row per shown note, in shown order, each with the
/// note's title; the row of the selected note is the only one marked, with
/// `▶`, and no row is marked when no note is selected.
pub proof fn lemma_list_marks_selected_row(a: App, lines: Seq<ListLine>)
    requires
        rows_match(a, lines),
        shows_only_notes(a),
    ensures
        lines.len() == a.filtered_indices@.len(),
        forall|k: int|
            0 <= k < lines.len() ==> (#[trigger] lines[k]).title@.subrange(3, lines[k].title@.len() as int)
                == a.notes@[a.filtered_indices@[k] as int].title@,
        forall|k: int| 0 <= k < lines.len() && (#[trigger] lines[k]).selected ==> k == a.selected_idx,
        match selected_position(a) {
            Some(p) => {
                &&& lines[a.selected_idx as int].selected
                &&& lines[a.selected_idx as int].title@ == " ▶ "@ + a.notes@[p].title@
            },
            None => forall|k: int| 0 <= k < lines.len() ==> !(#[trigger] lines[k]).selected,
        },
{
    reveal_strlit(" ▶ ");
    reveal_strlit("   ");
    assert forall|k: int| 0 <= k < lines.len() implies (#[trigger] lines[k]).title@.subrange(
        3,
        lines[k].title@.len() as int,
    ) == a.notes@[a.filtered_indices@[k] as int].title@ by {
        let n = a.notes@[a.filtered_indices@[k] as int];
        let pre = if k == a.selected_idx { " ▶ "@ } else { "   "@ };
        assert(lines[k].title@ == pre + n.title@);
        assert((pre + n.title@).subrange(3, (pre + n.title@).len() as int) =~= n.title@);
    }
}

} // verus!
