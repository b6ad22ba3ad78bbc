//! The small value types of the application's prompts: what a text-input
//! popup is collecting, the `@` quick commands of the new-note prompt, and
//! the suggestions of the query modal.
use vstd::prelude::*;
use chrono::Datelike;
use crate::icons::{spec_star, spec_text};
use crate::text::{chars_of, push_all, push_decimal, push_str, push_two_digits, spec_decimal, spec_two_digits, string_of};

verus! {

broadcast use vstd::string::group_string_axioms;

/// What a text-input popup is currently collecting a value for.
#[derive(Debug, Clone, Copy, PartialEq, Eq, Structural)]
pub enum PendingInput {
    NewNote,
    NewNotebook,
    NewNotebookRemote,
    NewFolder,
    RenameNote,
    RenameNotebook,
    RenameTag,
    SaveQuery,
    Search,
    SetRemote,
    SettingsNotebookRemote,
    SettingsNotebookAutoSyncEvery,
    SettingsGeneralText,
    SettingsGitText,
    SettingsSnippetTrigger,
    SettingsSnippetLabel,
    MoveOrCopy,
    ExportNotebook,
    PublishPath,
    SettingsExportText,
    NotebookPassphrase,
    Metadata,
}

impl PendingInput {
    pub open spec fn spec_title(self) -> Seq<char> {
        match self {
            PendingInput::NewNote => " New note (@ for quick date/template) "@,
            PendingInput::NewNotebook => " New notebook "@,
            PendingInput::NewNotebookRemote => " Git remote (URL or local path, empty = skip) "@,
            PendingInput::NewFolder => " New folder "@,
            PendingInput::RenameNote => " Rename "@,
            PendingInput::RenameNotebook => " Rename "@,
            PendingInput::RenameTag => " Rename/merge tag "@,
            PendingInput::SaveQuery => " Save query as "@,
            PendingInput::Search => " Jump to note "@,
            PendingInput::SetRemote => " Git remote (URL or local path) "@,
            PendingInput::SettingsNotebookRemote => " Git remote (URL or local path) "@,
            PendingInput::SettingsNotebookAutoSyncEvery => " Auto-sync every N changes "@,
            PendingInput::SettingsGeneralText => " Edit value "@,
            PendingInput::SettingsGitText => " Edit value "@,
            PendingInput::SettingsExportText => " Edit value "@,
            PendingInput::SettingsSnippetTrigger => " New snippet trigger "@,
            PendingInput::SettingsSnippetLabel => " Snippet label "@,
            PendingInput::MoveOrCopy => " Move/copy to "@,
            PendingInput::ExportNotebook => " Export path (.html or .md) "@,
            PendingInput::PublishPath => " Save PDF as "@,
            PendingInput::NotebookPassphrase => " Passphrase "@,
            PendingInput::Metadata => " Metadata "@,
        }
    }

    pub open spec fn spec_hint(self) -> Option<Seq<char>> {
        match self {
            PendingInput::NewNotebookRemote => Some("Empty Enter skips — the notebook works locally either way. You can always add a remote later with R, or set git.remote_template to stop being asked."@),
            PendingInput::NewNotebook => Some("A name creates a new local notebook. Paste a repo URL (https://, git@, ssh://) to clone it instead — make sure you're logged in first if it's private. A path (/abs, ~/docs, ./relative) adopts that existing directory instead."@),
            PendingInput::ExportNotebook => Some("Format is inferred from the extension — .md/.markdown for Markdown, anything else for HTML."@),
            PendingInput::RenameTag => Some("Applies to every note in every notebook that has this tag, not just here. Typing an existing tag's name merges into it instead of creating a duplicate."@),
            PendingInput::SaveQuery => Some("Saves to config.toml under [queries] — shows up as a ★ suggestion (in either query surface) from now on. An existing name overwrites that saved query."@),
            _ => None,
        }
    }

    /// The popup's title when nothing more specific was set.
    pub fn title(self) -> (r: &'static str)
        ensures
            r@ == self.spec_title(),
    {
        match self {
            PendingInput::NewNote => " New note (@ for quick date/template) ",
            PendingInput::NewNotebook => " New notebook ",
            PendingInput::NewNotebookRemote => " Git remote (URL or local path, empty = skip) ",
            PendingInput::NewFolder => " New folder ",
            PendingInput::RenameNote => " Rename ",
            PendingInput::RenameNotebook => " Rename ",
            PendingInput::RenameTag => " Rename/merge tag ",
            PendingInput::SaveQuery => " Save query as ",
            PendingInput::Search => " Jump to note ",
            PendingInput::SetRemote => " Git remote (URL or local path) ",
            PendingInput::SettingsNotebookRemote => " Git remote (URL or local path) ",
            PendingInput::SettingsNotebookAutoSyncEvery => " Auto-sync every N changes ",
            PendingInput::SettingsGeneralText => " Edit value ",
            PendingInput::SettingsGitText => " Edit value ",
            PendingInput::SettingsExportText => " Edit value ",
            PendingInput::SettingsSnippetTrigger => " New snippet trigger ",
            PendingInput::SettingsSnippetLabel => " Snippet label ",
            PendingInput::MoveOrCopy => " Move/copy to ",
            PendingInput::ExportNotebook => " Export path (.html or .md) ",
            PendingInput::PublishPath => " Save PDF as ",
            PendingInput::NotebookPassphrase => " Passphrase ",
            PendingInput::Metadata => " Metadata ",
        }
    }

    /// The muted line under the input box, for the prompts whose valid
    /// input is not obvious from the title alone.
    pub fn hint(self) -> (r: Option<&'static str>)
        ensures
            match r {
                Some(h) => self.spec_hint() == Some(h@),
                None => self.spec_hint() is None,
            },
    {
        match self {
            PendingInput::NewNotebookRemote => Some("Empty Enter skips — the notebook works locally either way. You can always add a remote later with R, or set git.remote_template to stop being asked."),
            PendingInput::NewNotebook => Some("A name creates a new local notebook. Paste a repo URL (https://, git@, ssh://) to clone it instead — make sure you're logged in first if it's private. A path (/abs, ~/docs, ./relative) adopts that existing directory instead."),
            PendingInput::ExportNotebook => Some("Format is inferred from the extension — .md/.markdown for Markdown, anything else for HTML."),
            PendingInput::RenameTag => Some("Applies to every note in every notebook that has this tag, not just here. Typing an existing tag's name merges into it instead of creating a duplicate."),
            PendingInput::SaveQuery => Some("Saves to config.toml under [queries] — shows up as a ★ suggestion (in either query surface) from now on. An existing name overwrites that saved query."),
            _ => None,
        }
    }
}

/// A calendar date.
#[derive(Debug, Clone, Copy, PartialEq, Eq, Structural)]
pub struct Date {
    pub year: i32,
    pub month: u32,
    pub day: u32,
}

/// The year as `%Y` writes it: four digits, zero-padded, for years 0 to
/// 9999; otherwise a sign and at least four digits.
pub open spec fn spec_year(y: int) -> Seq<char> {
    if 0 <= y <= 9999 {
        spec_four_digits(y as nat)
    } else if y > 9999 {
        seq!['+'] + spec_decimal(y as nat)
    } else if -y <= 9999 {
        seq!['-'] + spec_four_digits((-y) as nat)
    } else {
        seq!['-'] + spec_decimal((-y) as nat)
    }
}

/// `n` zero-padded to at least four digits.
pub open spec fn spec_four_digits(n: nat) -> Seq<char> {
    if n < 10 {
        seq!['0', '0', '0'] + spec_decimal(n)
    } else if n < 100 {
        seq!['0', '0'] + spec_decimal(n)
    } else if n < 1000 {
        seq!['0'] + spec_decimal(n)
    } else {
        spec_decimal(n)
    }
}

/// A date as `%Y-%m-%d`.
pub open spec fn spec_ymd(d: Date) -> Seq<char> {
    spec_year(d.year as int) + seq!['-'] + spec_two_digits(d.month as nat) + seq!['-'] + spec_two_digits(d.day as nat)
}

fn push_four_digits(out: &mut Vec<char>, n: usize)
    ensures
        final(out)@ == old(out)@ + spec_four_digits(n as nat),
{
    if n < 10 {
        push_str(out, "000");
    } else if n < 100 {
        push_str(out, "00");
    } else if n < 1000 {
        push_str(out, "0");
    }
    proof {
        reveal_strlit("000");
        reveal_strlit("00");
        reveal_strlit("0");
    }
    let ghost mid = out@;
    push_decimal(out, n);
    assert(out@ =~= old(out)@ + spec_four_digits(n as nat));
}

/// Formats a year as `%Y` (see `spec_year`).
pub fn format_year(y: i32) -> (s: String)
    ensures
        s@ == spec_year(y as int),
{
    let mut v: Vec<char> = Vec::new();
    if 0 <= y && y <= 9999 {
        push_four_digits(&mut v, y as usize);
    } else if y > 9999 {
        v.push('+');
        push_decimal(&mut v, y as usize);
    } else {
        v.push('-');
        let m: u32 = (0i64 - y as i64) as u32;
        if m <= 9999 {
            push_four_digits(&mut v, m as usize);
        } else {
            push_decimal(&mut v, m as usize);
        }
    }
    assert(v@ =~= spec_year(y as int));
    string_of(&v)
}

/// Formats a date as `%Y-%m-%d`.
pub fn format_ymd(d: Date) -> (s: String)
    ensures
        s@ == spec_ymd(d),
{
    let ys = format_year(d.year);
    let mut v = chars_of(ys.as_str());
    v.push('-');
    push_two_digits(&mut v, d.month as usize);
    v.push('-');
    push_two_digits(&mut v, d.day as usize);
    assert(v@ =~= spec_ymd(d));
    string_of(&v)
}

/// The first and the last year of chrono's `NaiveDate`.
pub open spec fn min_date_year() -> int {
    -262143
}

pub open spec fn max_date_year() -> int {
    262142
}

/// A leap year of the proleptic Gregorian calendar.
pub open spec fn is_leap_year(y: int) -> bool {
    y % 4 == 0 && (y % 100 != 0 || y % 400 == 0)
}

/// How many days month `m` of year `y` has.
pub open spec fn days_in_month(y: int, m: int) -> int {
    if m == 2 {
        if is_leap_year(y) { 29 } else { 28 }
    } else if m == 4 || m == 6 || m == 9 || m == 11 {
        30
    } else {
        31
    }
}

/// Whether chrono's `NaiveDate::from_ymd_opt` accepts `(y, m, d)`: a real
/// calendar date within its range of years.
pub open spec fn is_valid_date(y: int, m: int, d: int) -> bool {
    min_date_year() <= y <= max_date_year() && 1 <= m <= 12 && 1 <= d <= days_in_month(y, m)
}

/// The day before `(year, month, day)` as chrono's `NaiveDate::pred_opt`
/// gives it (`None` for an invalid date or the first representable one).
pub open spec fn spec_pred_date(year: i32, month: u32, day: u32) -> Option<(i32, u32, u32)> {
    if !is_valid_date(year as int, month as int, day as int) {
        None
    } else if day > 1 {
        Some((year, month, (day - 1) as u32))
    } else if month > 1 {
        Some((year, (month - 1) as u32, days_in_month(year as int, month - 1) as u32))
    } else if year > min_date_year() {
        Some(((year - 1) as i32, 12, 31))
    } else {
        None
    }
}

/// The day after `(year, month, day)` as chrono's `NaiveDate::succ_opt`
/// gives it (`None` for an invalid date or the last representable one).
pub open spec fn spec_succ_date(year: i32, month: u32, day: u32) -> Option<(i32, u32, u32)> {
    if !is_valid_date(year as int, month as int, day as int) {
        None
    } else if day < days_in_month(year as int, month as int) {
        Some((year, month, (day + 1) as u32))
    } else if month < 12 {
        Some((year, (month + 1) as u32, 1))
    } else if year < max_date_year() {
        Some(((year + 1) as i32, 1, 1))
    } else {
        None
    }
}

pub open spec fn date_tuple(d: Date) -> (i32, u32, u32) {
    (d.year, d.month, d.day)
}

/// Wrapper over chrono's `Local::now().date_naive()`: today's date in the
/// local time zone, whatever it is when called.
#[verifier::external_body]
fn local_today() -> (d: Date)
    ensures
        is_valid_date(d.year as int, d.month as int, d.day as int),
{
    let t = chrono::Local::now().date_naive();
    Date { year: t.year(), month: t.month(), day: t.day() }
}

/// Wrapper over chrono's `NaiveDate::from_ymd_opt` then `pred_opt`: the
/// previous calendar day (see `spec_pred_date`).
#[verifier::external_body]
fn pred_date(d: Date) -> (r: Option<Date>)
    ensures
        match r {
            Some(p) => spec_pred_date(d.year, d.month, d.day) == Some(date_tuple(p)),
            None => spec_pred_date(d.year, d.month, d.day) is None,
        },
{
    chrono::NaiveDate::from_ymd_opt(d.year, d.month, d.day)
        .and_then(|n| n.pred_opt())
        .map(|p| Date { year: p.year(), month: p.month(), day: p.day() })
}

/// Wrapper over chrono's `NaiveDate::from_ymd_opt` then `succ_opt`: the
/// next calendar day (see `spec_succ_date`).
#[verifier::external_body]
fn succ_date(d: Date) -> (r: Option<Date>)
    ensures
        match r {
            Some(p) => spec_succ_date(d.year, d.month, d.day) == Some(date_tuple(p)),
            None => spec_succ_date(d.year, d.month, d.day) is None,
        },
{
    chrono::NaiveDate::from_ymd_opt(d.year, d.month, d.day)
        .and_then(|n| n.succ_opt())
        .map(|p| Date { year: p.year(), month: p.month(), day: p.day() })
}

/// An `@` quick command of the new-note prompt: a date (today, yesterday,
/// tomorrow) or a template by name.
#[derive(Debug, Clone, PartialEq, Eq)]
pub enum QuickCommand {
    Today,
    Yesterday,
    Tomorrow,
    Template(String),
}

impl QuickCommand {
    pub open spec fn spec_label(&self) -> Seq<char> {
        match self {
            QuickCommand::Today => "today"@,
            QuickCommand::Yesterday => "yesterday"@,
            QuickCommand::Tomorrow => "tomorrow"@,
            QuickCommand::Template(name) => name@,
        }
    }

    /// How the command is named in the dropdown.
    pub fn label(&self) -> (r: String)
        ensures
            r@ == self.spec_label(),
    {
        match self {
            QuickCommand::Today => string_of(&chars_of("today")),
            QuickCommand::Yesterday => string_of(&chars_of("yesterday")),
            QuickCommand::Tomorrow => string_of(&chars_of("tomorrow")),
            QuickCommand::Template(name) => name.clone(),
        }
    }

    /// The date a date command stands for, relative to `today`: `None`
    /// for a template, or when the day before or after does not exist.
    pub open spec fn spec_date_from(&self, today: Date) -> Option<(i32, u32, u32)> {
        match self {
            QuickCommand::Today => Some(date_tuple(today)),
            QuickCommand::Yesterday => spec_pred_date(today.year, today.month, today.day),
            QuickCommand::Tomorrow => spec_succ_date(today.year, today.month, today.day),
            QuickCommand::Template(_) => None,
        }
    }

    /// The date a date command stands for, given today's date.
    pub fn date_from(&self, today: Date) -> (r: Option<Date>)
        ensures
            match r {
                Some(d) => self.spec_date_from(today) == Some(date_tuple(d)),
                None => self.spec_date_from(today) is None,
            },
    {
        match self {
            QuickCommand::Today => Some(today),
            QuickCommand::Yesterday => pred_date(today),
            QuickCommand::Tomorrow => succ_date(today),
            QuickCommand::Template(_) => None,
        }
    }

    /// The date a date command stands for, today being the local date when
    /// called; `None` for a template.
    pub fn date(&self) -> (r: Option<Date>)
        ensures
            exists|today: Date|
                is_valid_date(today.year as int, today.month as int, today.day as int) && match r {
                    Some(d) => self.spec_date_from(today) == Some(date_tuple(d)),
                    None => self.spec_date_from(today) is None,
                },
    {
        let today = local_today();
        self.date_from(today)
    }

    /// The dropdown line, given the command's date: a template reads
    /// `name  (template)`, a date command its label, `  → ` and the date as
    /// `%Y-%m-%d` (nothing after the arrow without a date).
    pub open spec fn spec_display_with(&self, date: Option<Date>) -> Seq<char> {
        match self {
            QuickCommand::Template(name) => name@ + "  (template)"@,
            _ => self.spec_label() + "  \u{2192} "@ + match date {
                Some(d) => spec_ymd(d),
                None => Seq::empty(),
            },
        }
    }

    /// The dropdown line for the command with the given date.
    pub fn display_with(&self, date: Option<Date>) -> (r: String)
        ensures
            r@ == self.spec_display_with(date),
    {
        match self {
            QuickCommand::Template(name) => {
                let mut v = chars_of(name.as_str());
                push_str(&mut v, "  (template)");
                string_of(&v)
            },
            _ => {
                let l = self.label();
                let mut v = chars_of(l.as_str());
                push_str(&mut v, "  \u{2192} ");
                if let Some(d) = date {
                    let ds = format_ymd(d);
                    push_all(&mut v, &chars_of(ds.as_str()));
                }
                string_of(&v)
            },
        }
    }

    /// The dropdown line, dated from today's local date (see
    /// `display_with`).
    pub fn display(&self) -> (r: String)
        ensures
            exists|today: Date, date: Option<Date>|
                1 <= today.month <= 12 && 1 <= today.day <= 31 && r@ == self.spec_display_with(date) && match date {
                    Some(d) => self.spec_date_from(today) == Some(date_tuple(d)),
                    None => self.spec_date_from(today) is None,
                },
    {
        let date = self.date();
        self.display_with(date)
    }
}

/// An entry of the query modal's suggestions: what the list shows, the
/// query text that is filled in and run, and the saved query's name (none
/// for a generated example, which cannot be deleted).
#[derive(Debug, Clone)]
pub struct QuerySuggestion {
    pub display: String,
    pub dsl: String,
    pub saved_name: Option<String>,
}

impl QuerySuggestion {
    /// A generated example: shown as its own query text.
    pub fn generated(dsl: String) -> (r: Self)
        ensures
            r.display@ == dsl@,
            r.dsl == dsl,
            r.saved_name is None,
    {
        QuerySuggestion { display: dsl.clone(), dsl, saved_name: None }
    }

    /// A saved query: shown as the star icon (as printed with icons on or
    /// off), a space and its name.
    pub fn saved(name: &str, dsl: String, icons_enabled: bool) -> (r: Self)
        ensures
            r.display@ == spec_text(spec_star(), icons_enabled) + seq![' '] + name@,
            r.dsl == dsl,
            r.saved_name matches Some(n) && n@ == name@,
    {
        let star = crate::icons::star().text(icons_enabled);
        let mut v = chars_of(star.as_str());
        v.push(' ');
        push_all(&mut v, &chars_of(name));
        QuerySuggestion { display: string_of(&v), dsl, saved_name: Some(string_of(&chars_of(name))) }
    }
}

/// One word placed by greedy wrapping into `width` columns: on the current
/// line (after a separating space unless it is the first word there) if it
/// fits, else starting a new line. The state is (lines, used columns).
pub open spec fn place_word(st: (nat, nat), len: nat, width: nat) -> (nat, nat) {
    let sep: nat = if st.1 == 0 {
        0
    } else {
        1
    };
    if st.1 + sep + len > width {
        (st.0 + 1, len)
    } else {
        (st.0, st.1 + sep + len)
    }
}

/// The wrapping state after the characters `s[..i]`: (lines, used columns,
/// length of the word being read). Words are the runs of non-whitespace.
pub open spec fn wrap_scan(s: Seq<char>, i: int, width: nat) -> (nat, nat, nat)
    decreases i,
{
    if i <= 0 || i > s.len() {
        (1, 0, 0)
    } else {
        let p = wrap_scan(s, i - 1, width);
        if crate::text::spec_is_whitespace(s[i - 1]) {
            if p.2 > 0 {
                let q = place_word((p.0, p.1), p.2, width);
                (q.0, q.1, 0)
            } else {
                p
            }
        } else {
            (p.0, p.1, p.2 + 1)
        }
    }
}

/// How many lines greedy word wrapping of `text` into `width` columns
/// (at least one) takes: at least one line, even for no words.
pub open spec fn spec_hint_line_count(text: Seq<char>, width: nat) -> nat {
    let w: nat = if width == 0 {
        1
    } else {
        width
    };
    let p = wrap_scan(text, text.len() as int, w);
    if p.2 > 0 {
        place_word((p.0, p.1), p.2, w).0
    } else {
        p.0
    }
}

proof fn lemma_wrap_scan_grows(s: Seq<char>, i: int, j: int, width: nat)
    requires
        0 <= i <= j <= s.len(),
    ensures
        wrap_scan(s, i, width).0 <= wrap_scan(s, j, width).0,
        wrap_scan(s, j, width).1 + wrap_scan(s, j, width).2 <= j,
    decreases j,
{
    if j > 0 {
        if i < j {
            lemma_wrap_scan_grows(s, i, j - 1, width);
        } else {
            lemma_wrap_scan_grows(s, 0, j - 1, width);
        }
    }
}

/// How many lines a prompt hint takes when wrapped greedily at word
/// boundaries into `width` columns, so the popup can be sized to fit it.
pub fn hint_line_count(text: &str, width: u16) -> (n: u16)
    requires
        spec_hint_line_count(text@, width as nat) <= u16::MAX,
    ensures
        n == spec_hint_line_count(text@, width as nat),
{
    let w: usize = if width == 0 {
        1
    } else {
        width as usize
    };
    let chars = chars_of(text);
    let ghost s = text@;
    let mut lines: u16 = 1;
    let mut current: usize = 0;
    let mut word: usize = 0;
    let mut i: usize = 0;
    while i < chars.len()
        invariant
            chars@ == s,
            s == text@,
            w as nat == if width == 0 {
                1nat
            } else {
                width as nat
            },
            0 <= i <= s.len(),
            (lines as nat, current as nat, word as nat) == wrap_scan(s, i as int, w as nat),
            spec_hint_line_count(s, width as nat) <= u16::MAX,
            current + word <= i,
        decreases s.len() - i,
    {
        proof {
            lemma_wrap_scan_grows(s, i + 1, s.len() as int, w as nat);
            lemma_wrap_scan_grows(s, i + 1, i + 1, w as nat);
        }
        let c = chars[i];
        if crate::text::is_whitespace(c) {
            if word > 0 {
                let sep: usize = if current == 0 {
                    0
                } else {
                    1
                };
                if current + word > w - sep {
                    proof {
                        let p = wrap_scan(s, s.len() as int, w as nat);
                        if p.2 > 0 {
                            assert(place_word((p.0, p.1), p.2, w as nat).0 >= p.0);
                        }
                    }
                    lines = lines + 1;
                    current = word;
                } else {
                    current = current + sep + word;
                }
                word = 0;
            }
        } else {
            word = word + 1;
        }
        i = i + 1;
    }
    if word > 0 {
        let sep: usize = if current == 0 {
            0
        } else {
            1
        };
        if current + word > w - sep {
            lines = lines + 1;
        }
    }
    lines
}

} // verus!
