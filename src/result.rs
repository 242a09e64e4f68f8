use vstd::prelude::*;
use vstd::string::StrSliceExecFns;

verus! {

/// Outcome of checking one file attribute.
#[derive(Clone, Copy, Debug, PartialEq, Eq, Structural)]
pub enum CheckResult {
    /// Shown as `?`.
    Unsupported,
    /// Shown as `.`.
    Passed,
    /// Shown as the column's failure character.
    Failed,
}

/// The eight status columns, in the order they appear in a status token.
enum CheckFlags {
    Size,
    Mode,
    Checksum,
    MajorMinor,
    SymbolicLink,
    Owner,
    Group,
    ModificationTime,
}

/// Number of attribute columns in a status token.
pub const COLUMNS: usize = 8;

/// The failure character of column `i` (`SM5DLUGT`).
pub open spec fn flag_char(i: int) -> char {
    if i == 0 {
        'S'
    } else if i == 1 {
        'M'
    } else if i == 2 {
        '5'
    } else if i == 3 {
        'D'
    } else if i == 4 {
        'L'
    } else if i == 5 {
        'U'
    } else if i == 6 {
        'G'
    } else {
        'T'
    }
}

impl CheckFlags {
    spec fn column(self) -> int {
        match self {
            CheckFlags::Size => 0,
            CheckFlags::Mode => 1,
            CheckFlags::Checksum => 2,
            CheckFlags::MajorMinor => 3,
            CheckFlags::SymbolicLink => 4,
            CheckFlags::Owner => 5,
            CheckFlags::Group => 6,
            CheckFlags::ModificationTime => 7,
        }
    }

    fn into_char(self) -> (c: char)
        ensures
            c == flag_char(self.column()),
    {
        match self {
            CheckFlags::Size => 'S',
            CheckFlags::Mode => 'M',
            CheckFlags::Checksum => '5',
            CheckFlags::MajorMinor => 'D',
            CheckFlags::SymbolicLink => 'L',
            CheckFlags::Owner => 'U',
            CheckFlags::Group => 'G',
            CheckFlags::ModificationTime => 'T',
        }
    }
}

/// The character a status column shows for `result`, given the column's failure character.
pub open spec fn status_char(result: CheckResult, flag_character: char) -> char {
    match result {
        CheckResult::Passed => '.',
        CheckResult::Failed => flag_character,
        CheckResult::Unsupported => '?',
    }
}

fn get_character_for_result(result: CheckResult, flag_character: char) -> (c: char)
    ensures
        c == status_char(result, flag_character),
{
    if result == CheckResult::Passed {
        return '.';
    }
    if result == CheckResult::Failed {
        return flag_character;
    }
    '?'
}

/// What one character of a status token says about its column.
pub open spec fn char_status(c: char) -> CheckResult {
    if c == '?' {
        CheckResult::Unsupported
    } else if c == '.' {
        CheckResult::Passed
    } else {
        CheckResult::Failed
    }
}

/// The mathematical content of a `VerificationResult`.
pub struct ResultView {
    pub size: CheckResult,
    pub mode: CheckResult,
    pub checksum: CheckResult,
    pub major_minor: CheckResult,
    pub symbolic_link: CheckResult,
    pub owner: CheckResult,
    pub group: CheckResult,
    pub modification_time: CheckResult,
    pub is_configuration: bool,
}

impl ResultView {
    /// The check of column `i` (0 to 7, in the order of a status token).
    pub open spec fn column(self, i: int) -> CheckResult {
        if i == 0 {
            self.size
        } else if i == 1 {
            self.mode
        } else if i == 2 {
            self.checksum
        } else if i == 3 {
            self.major_minor
        } else if i == 4 {
            self.symbolic_link
        } else if i == 5 {
            self.owner
        } else if i == 6 {
            self.group
        } else {
            self.modification_time
        }
    }
}

/// The result with every check unsupported and no configuration mark.
pub open spec fn unknown_view() -> ResultView {
    ResultView {
        size: CheckResult::Unsupported,
        mode: CheckResult::Unsupported,
        checksum: CheckResult::Unsupported,
        major_minor: CheckResult::Unsupported,
        symbolic_link: CheckResult::Unsupported,
        owner: CheckResult::Unsupported,
        group: CheckResult::Unsupported,
        modification_time: CheckResult::Unsupported,
        is_configuration: false,
    }
}

/// The check that column `i` of token `s` encodes; a column past the end is unsupported.
pub open spec fn parse_column(s: Seq<char>, i: int) -> CheckResult {
    if i < s.len() {
        char_status(s[i])
    } else {
        CheckResult::Unsupported
    }
}

/// Whether token `s` marks a configuration file: longer than eight characters and ending in `c`.
pub open spec fn config_marked(s: Seq<char>) -> bool {
    s.len() > 8 && s.last() == 'c'
}

/// The result that status token `s` encodes.
pub open spec fn parse(s: Seq<char>) -> ResultView {
    ResultView {
        size: parse_column(s, 0),
        mode: parse_column(s, 1),
        checksum: parse_column(s, 2),
        major_minor: parse_column(s, 3),
        symbolic_link: parse_column(s, 4),
        owner: parse_column(s, 5),
        group: parse_column(s, 6),
        modification_time: parse_column(s, 7),
        is_configuration: config_marked(s),
    }
}

/// The canonical status token of `r`: eight column characters, then ` c` for a configuration file.
pub open spec fn serialize(r: ResultView) -> Seq<char> {
    seq![
        status_char(r.size, 'S'),
        status_char(r.mode, 'M'),
        status_char(r.checksum, '5'),
        status_char(r.major_minor, 'D'),
        status_char(r.symbolic_link, 'L'),
        status_char(r.owner, 'U'),
        status_char(r.group, 'G'),
        status_char(r.modification_time, 'T'),
    ] + if r.is_configuration {
        seq![' ', 'c']
    } else {
        Seq::<char>::empty()
    }
}

/// Relies on `String::push`: appends one character.
#[verifier::external_body]
fn push_char(s: &mut String, c: char)
    ensures
        final(s)@ == old(s)@.push(c),
{
    s.push(c);
}

/// Per-attribute verification status of one installed file.
#[derive(Clone, Copy, Debug, PartialEq, Eq, Structural)]
pub struct VerificationResult {
    size: CheckResult,
    mode: CheckResult,
    checksum: CheckResult,
    major_minor: CheckResult,
    symbolic_link: CheckResult,
    owner: CheckResult,
    group: CheckResult,
    modification_time: CheckResult,
    is_configuration: bool,
}

impl View for VerificationResult {
    type V = ResultView;

    closed spec fn view(&self) -> ResultView {
        ResultView {
            size: self.size,
            mode: self.mode,
            checksum: self.checksum,
            major_minor: self.major_minor,
            symbolic_link: self.symbolic_link,
            owner: self.owner,
            group: self.group,
            modification_time: self.modification_time,
            is_configuration: self.is_configuration,
        }
    }
}

/// The check encoded at column `i` of `input`, whose length in characters is `n`.
fn column_at(input: &str, n: usize, i: usize) -> (r: CheckResult)
    requires
        n == input@.len(),
    ensures
        r == parse_column(input@, i as int),
{
    if i < n {
        let c = input.get_char(i);
        if c == '?' {
            CheckResult::Unsupported
        } else if c == '.' {
            CheckResult::Passed
        } else {
            CheckResult::Failed
        }
    } else {
        CheckResult::Unsupported
    }
}

impl VerificationResult {
    /// A result with every check unsupported and no configuration mark.
    pub fn unknown() -> (r: Self)
        ensures
            r@ == unknown_view(),
    {
        VerificationResult {
            size: CheckResult::Unsupported,
            mode: CheckResult::Unsupported,
            checksum: CheckResult::Unsupported,
            major_minor: CheckResult::Unsupported,
            symbolic_link: CheckResult::Unsupported,
            owner: CheckResult::Unsupported,
            group: CheckResult::Unsupported,
            modification_time: CheckResult::Unsupported,
            is_configuration: false,
        }
    }

    /// Decode a status token such as `.?5????T c`.
    ///
    /// Column `i` (for `i` below 8) is `?` for unsupported, `.` for passed and any other
    /// character for failed; columns missing from a short token stay unsupported. The
    /// configuration flag is set when the token is longer than eight characters and ends
    /// in `c`.
    pub fn from_string(input: &str) -> (r: Self)
        ensures
            r@ == parse(input@),
    {
        let n = input.unicode_len();
        let is_configuration = n > COLUMNS && input.get_char(n - 1) == 'c';
        VerificationResult {
            size: column_at(input, n, 0),
            mode: column_at(input, n, 1),
            checksum: column_at(input, n, 2),
            major_minor: column_at(input, n, 3),
            symbolic_link: column_at(input, n, 4),
            owner: column_at(input, n, 5),
            group: column_at(input, n, 6),
            modification_time: column_at(input, n, 7),
            is_configuration,
        }
    }

    /// The canonical status token: one character per column (`.` passed, `?` unsupported,
    /// the column's letter of `SM5DLUGT` failed), followed by ` c` for a configuration file.
    pub fn to_string(&self) -> (s: String)
        ensures
            s@ == serialize(self@),
    {
        let mut out = String::new();
        push_char(&mut out, get_character_for_result(self.size, CheckFlags::Size.into_char()));
        push_char(&mut out, get_character_for_result(self.mode, CheckFlags::Mode.into_char()));
        push_char(
            &mut out,
            get_character_for_result(self.checksum, CheckFlags::Checksum.into_char()),
        );
        push_char(
            &mut out,
            get_character_for_result(self.major_minor, CheckFlags::MajorMinor.into_char()),
        );
        push_char(
            &mut out,
            get_character_for_result(self.symbolic_link, CheckFlags::SymbolicLink.into_char()),
        );
        push_char(&mut out, get_character_for_result(self.owner, CheckFlags::Owner.into_char()));
        push_char(&mut out, get_character_for_result(self.group, CheckFlags::Group.into_char()));
        push_char(
            &mut out,
            get_character_for_result(
                self.modification_time,
                CheckFlags::ModificationTime.into_char(),
            ),
        );
        if self.is_configuration {
            push_char(&mut out, ' ');
            push_char(&mut out, 'c');
        }
        assert(out@ =~= serialize(self@));
        out
    }

    pub fn size(&self) -> (r: CheckResult)
        ensures
            r == self@.size,
    {
        self.size
    }

    pub fn mode(&self) -> (r: CheckResult)
        ensures
            r == self@.mode,
    {
        self.mode
    }

    pub fn checksum(&self) -> (r: CheckResult)
        ensures
            r == self@.checksum,
    {
        self.checksum
    }

    pub fn major_minor(&self) -> (r: CheckResult)
        ensures
            r == self@.major_minor,
    {
        self.major_minor
    }

    pub fn symbolic_link(&self) -> (r: CheckResult)
        ensures
            r == self@.symbolic_link,
    {
        self.symbolic_link
    }

    pub fn owner(&self) -> (r: CheckResult)
        ensures
            r == self@.owner,
    {
        self.owner
    }

    pub fn group(&self) -> (r: CheckResult)
        ensures
            r == self@.group,
    {
        self.group
    }

    pub fn modification_time(&self) -> (r: CheckResult)
        ensures
            r == self@.modification_time,
    {
        self.modification_time
    }

    pub fn is_configuration(&self) -> (r: bool)
        ensures
            r == self@.is_configuration,
    {
        self.is_configuration
    }
}

/// The default result serializes to eight `?` characters.
pub proof fn lemma_unknown_serializes()
    ensures
        serialize(unknown_view()) == seq!['?', '?', '?', '?', '?', '?', '?', '?'],
{
    assert(serialize(unknown_view()) =~= seq!['?', '?', '?', '?', '?', '?', '?', '?']);
}

/// Parsing the canonical token of any result gives that result back.
pub proof fn lemma_round_trip(r: ResultView)
    ensures
        parse(serialize(r)) == r,
{
    let s = serialize(r);
    assert(s.len() == if r.is_configuration { 10int } else { 8int });
    assert forall|i: int| 0 <= i < 8 implies s[i] == status_char(r.column(i), flag_char(i)) by {}
    if r.is_configuration {
        assert(s.last() == 'c');
    }
}

/// Changing the character at one column of a token changes only that column's check:
/// the other columns and the configuration flag stay as they were.
pub proof fn lemma_column_independence(s: Seq<char>, i: int, c: char)
    requires
        0 <= i < 8,
        i < s.len(),
    ensures
        parse(s.update(i, c)).column(i) == char_status(c),
        forall|j: int| 0 <= j < 8 && j != i ==> #[trigger] parse(s.update(i, c)).column(j) == parse(s).column(j),
        parse(s.update(i, c)).is_configuration == parse(s).is_configuration,
{
    let t = s.update(i, c);
    if s.len() > 8 {
        assert(t.last() == s.last());
    }
}

} // verus!
