use vstd::prelude::*;
use crate::placement::Bed;
use crate::decimal::{all_digits, is_digit};

verus! {

/// The schema version of a settings record.
#[derive(Clone, Debug)]
pub enum SettingsVersion {
    /// Records from before versions were kept.
    V0,
    /// The current schema: no program end command is added implicitly.
    V5,
    /// A version this library does not know.
    Unknown(String),
}

/// What the machine can do and the command snippets it runs at its events.
#[derive(Clone, Debug)]
pub struct MachineSettings {
    pub circular_interpolation: bool,
    pub tool_on_sequence: Option<String>,
    pub tool_off_sequence: Option<String>,
    pub begin_sequence: Option<String>,
    pub end_sequence: Option<String>,
}

/// Defaults for converting drawings.
#[derive(Clone, Copy, Debug, PartialEq, Eq, Structural)]
pub struct ConversionSettings {
    /// Curve tolerance, in quanta.
    pub tolerance: i128,
    /// Feed rate, in thousandths of a millimetre per minute.
    pub feedrate_milli: u64,
    /// Resolution for pixel-based units, in thousandths of a dot per inch.
    pub dpi_milli: u32,
    pub bed: Bed,
}

/// Options for writing out programs.
#[derive(Clone, Copy, Debug, PartialEq, Eq, Structural)]
pub struct PostprocessSettings {
    pub checksums: bool,
    pub line_numbers: bool,
    pub newline_before_comment: bool,
}

/// The settings of a session.
#[derive(Clone, Debug)]
pub struct Settings {
    pub conversion: ConversionSettings,
    pub machine: MachineSettings,
    pub postprocess: PostprocessSettings,
    pub version: SettingsVersion,
}

/// Why a settings record could not be brought to the current version.
#[derive(Clone, Copy, Debug, PartialEq, Eq, Structural)]
pub enum UpgradeError {
    UnknownVersion,
}

pub open spec fn opt_view(o: Option<String>) -> Option<Seq<char>> {
    match o {
        Some(s) => Some(s@),
        None => None,
    }
}

/// Two records that hold the same values, strings compared by their text.
pub open spec fn same_settings(a: Settings, b: Settings) -> bool {
    &&& a.conversion == b.conversion
    &&& a.postprocess == b.postprocess
    &&& a.machine.circular_interpolation == b.machine.circular_interpolation
    &&& opt_view(a.machine.tool_on_sequence) == opt_view(b.machine.tool_on_sequence)
    &&& opt_view(a.machine.tool_off_sequence) == opt_view(b.machine.tool_off_sequence)
    &&& opt_view(a.machine.begin_sequence) == opt_view(b.machine.begin_sequence)
    &&& opt_view(a.machine.end_sequence) == opt_view(b.machine.end_sequence)
    &&& same_version(a.version, b.version)
}

pub open spec fn same_version(a: SettingsVersion, b: SettingsVersion) -> bool {
    match (a, b) {
        (SettingsVersion::V0, SettingsVersion::V0) => true,
        (SettingsVersion::V5, SettingsVersion::V5) => true,
        (SettingsVersion::Unknown(x), SettingsVersion::Unknown(y)) => x@ == y@,
        _ => false,
    }
}

/// `after` is `before` brought to the current version: a record from before
/// versions were kept gets the program end command appended to its end
/// sequence (which behaved as if it were there); a current one stays as it is.
pub open spec fn upgraded(before: Settings, after: Settings) -> bool {
    match before.version {
        SettingsVersion::V0 => {
            &&& after.version is V5
            &&& after.conversion == before.conversion
            &&& after.postprocess == before.postprocess
            &&& after.machine.circular_interpolation == before.machine.circular_interpolation
            &&& opt_view(after.machine.tool_on_sequence) == opt_view(before.machine.tool_on_sequence)
            &&& opt_view(after.machine.tool_off_sequence) == opt_view(before.machine.tool_off_sequence)
            &&& opt_view(after.machine.begin_sequence) == opt_view(before.machine.begin_sequence)
            &&& opt_view(after.machine.end_sequence) == Some(
                match opt_view(before.machine.end_sequence) {
                    Some(e) => e,
                    None => Seq::<char>::empty(),
                } + " M2"@,
            )
        },
        SettingsVersion::V5 => same_settings(before, after),
        SettingsVersion::Unknown(_) => false,
    }
}

impl Settings {
    /// Brings the record to the current version. A record of an unknown version
    /// is refused and left as it was.
    pub fn try_upgrade(&mut self) -> (r: Result<(), UpgradeError>)
        ensures
            match old(self).version {
                SettingsVersion::Unknown(_) => r == Err::<(), UpgradeError>(UpgradeError::UnknownVersion)
                    && same_settings(*old(self), *final(self)),
                _ => r is Ok && upgraded(*old(self), *final(self)),
            },
    {
        match self.version {
            SettingsVersion::V0 => {
                let mut end = match &self.machine.end_sequence {
                    Some(e) => e.clone(),
                    None => String::new(),
                };
                end.append(" M2");
                self.machine.end_sequence = Some(end);
                self.version = SettingsVersion::V5;
                Ok(())
            },
            SettingsVersion::V5 => Ok(()),
            SettingsVersion::Unknown(_) => Err(UpgradeError::UnknownVersion),
        }
    }
}


/// Upgrading an upgraded record changes nothing.
pub proof fn upgrade_is_idempotent(a: Settings, b: Settings, c: Settings)
    requires
        upgraded(a, b),
        upgraded(b, c),
    ensures
        same_settings(b, c),
        b.version is V5,
{
}


/// Whether `text` is a valid command snippet.
pub uninterp spec fn snippet_parses(text: Seq<char>) -> bool;

/// Longest run of digits that a snippet may hold: a field's whole part of more
/// digits can overflow the parser's decimal arithmetic.
pub const MAX_DIGIT_RUN: usize = 28;

/// Text that the snippet parser reads without failing outright: no `+` right
/// before a `-` (a field with both signs), and no run of more than
/// `MAX_DIGIT_RUN` digits. Other text is taken not to compile. The test looks
/// at the whole text, comments and quoted strings included, so a snippet that
/// holds such a sequence only inside a comment or a string is refused as well,
/// though the parser would accept it.
pub open spec fn snippet_safe(t: Seq<char>) -> bool {
    &&& forall|i: int| 0 <= i && i + 1 < t.len() ==> !(t[i] == '+' && #[trigger] t[i + 1] == '-')
    &&& forall|i: int|
        0 <= i && i + MAX_DIGIT_RUN + 1 <= t.len() ==> !all_digits(#[trigger] t.subrange(i, i + MAX_DIGIT_RUN + 1))
}

/// Relies on `g_code::parse::snippet_parser`: whether it accepts `text`.
#[verifier::external_body]
fn snippet_is_valid(text: &str) -> (r: bool)
    requires
        snippet_safe(text@),
    ensures
        r == snippet_parses(text@),
{
    g_code::parse::snippet_parser(text).is_ok()
}

proof fn lemma_run_window(t: Seq<char>, i: int, start: int)
    requires
        0 <= start <= i < t.len(),
        forall|j: int| start <= j <= i ==> is_digit(#[trigger] t[j]),
        i - start + 1 >= MAX_DIGIT_RUN + 1,
    ensures
        all_digits(t.subrange(i - MAX_DIGIT_RUN, i + 1)),
{
    assert forall|j: int| 0 <= j < MAX_DIGIT_RUN + 1 implies is_digit(
        #[trigger] t.subrange(i - MAX_DIGIT_RUN, i + 1)[j],
    ) by {
        assert(t.subrange(i - MAX_DIGIT_RUN, i + 1)[j] == t[i - MAX_DIGIT_RUN + j]);
    }
}

/// Whether `text` is clear of what makes the snippet parser fail outright.
fn is_snippet_safe(text: &str) -> (r: bool)
    ensures
        r == snippet_safe(text@),
{
    let n = text.unicode_len();
    let mut i: usize = 0;
    let mut run: usize = 0;
    let mut prev_plus = false;
    while i < n
        invariant
            i <= n,
            n == text@.len(),
            run <= MAX_DIGIT_RUN,
            run <= i,
            forall|j: int| i - run <= j < i ==> is_digit(#[trigger] text@[j]),
            run < i ==> !is_digit(text@[i - run - 1]),
            prev_plus == (i > 0 && text@[i - 1] == '+'),
            forall|j: int| 0 <= j && j + 1 < i ==> !(text@[j] == '+' && #[trigger] text@[j + 1] == '-'),
            forall|j: int|
                0 <= j && j + MAX_DIGIT_RUN + 1 <= i ==> !all_digits(
                    #[trigger] text@.subrange(j, j + MAX_DIGIT_RUN + 1),
                ),
        decreases n - i,
    {
        let c = text.get_char(i);
        if prev_plus && c == '-' {
            assert(text@[i - 1] == '+' && text@[(i - 1) + 1] == '-');
            return false;
        }
        if '0' <= c && c <= '9' {
            if run == MAX_DIGIT_RUN {
                proof {
                    lemma_run_window(text@, i as int, i - run);
                }
                assert(!snippet_safe(text@)) by {
                    let k = i - MAX_DIGIT_RUN;
                    assert(0 <= k && k + MAX_DIGIT_RUN + 1 <= text@.len());
                    assert(all_digits(text@.subrange(k, k + MAX_DIGIT_RUN + 1)));
                }
                return false;
            }
            run = run + 1;
        } else {
            proof {
                assert forall|j: int|
                    0 <= j && j + MAX_DIGIT_RUN + 1 == i + 1 implies !all_digits(
                        #[trigger] text@.subrange(j, j + MAX_DIGIT_RUN + 1),
                    ) by {
                    assert(text@.subrange(j, j + MAX_DIGIT_RUN + 1)[MAX_DIGIT_RUN as int] == c);
                }
            }
            run = 0;
        }
        proof {
            if run > 0 {
                assert forall|j: int|
                    0 <= j && j + MAX_DIGIT_RUN + 1 == i + 1 implies !all_digits(
                        #[trigger] text@.subrange(j, j + MAX_DIGIT_RUN + 1),
                    ) by {
                    let w = text@.subrange(j, j + MAX_DIGIT_RUN + 1);
                    let p = i - run;
                    assert(p >= j);
                    assert(w[p - j] == text@[p]);
                }
            }
        }
        prev_plus = c == '+';
        i = i + 1;
    }
    true
}

/// A command snippet compiles: it is clear of what makes the parser fail
/// outright, and the parser accepts it.
pub open spec fn sequence_ok(s: Option<String>) -> bool {
    match s {
        Some(t) => snippet_safe(t@) && snippet_parses(t@),
        None => true,
    }
}

/// The command snippet that failed to compile.
#[derive(Clone, Copy, Debug, PartialEq, Eq, Structural)]
pub enum SequenceError {
    ToolOn,
    ToolOff,
    Begin,
    End,
}

fn sequence_is_valid(s: &Option<String>) -> (r: bool)
    ensures
        r == sequence_ok(*s),
{
    match s {
        Some(t) => is_snippet_safe(t.as_str()) && snippet_is_valid(t.as_str()),
        None => true,
    }
}

/// Checks every command snippet of the machine, as one must before any drawing
/// is converted; the first that does not compile, in the order tool on, tool
/// off, begin, end, is reported. A snippet that is not `snippet_safe` counts as
/// not compiling, even where the sequence sits in a comment or a string.
pub fn check_sequences(m: &MachineSettings) -> (r: Result<(), SequenceError>)
    ensures
        r is Ok <==> sequence_ok(m.tool_on_sequence) && sequence_ok(m.tool_off_sequence) && sequence_ok(
            m.begin_sequence,
        ) && sequence_ok(m.end_sequence),
        r == Err::<(), SequenceError>(SequenceError::ToolOn) <==> !sequence_ok(m.tool_on_sequence),
        r == Err::<(), SequenceError>(SequenceError::ToolOff) <==> sequence_ok(m.tool_on_sequence) && !sequence_ok(
            m.tool_off_sequence,
        ),
        r == Err::<(), SequenceError>(SequenceError::Begin) <==> sequence_ok(m.tool_on_sequence) && sequence_ok(
            m.tool_off_sequence,
        ) && !sequence_ok(m.begin_sequence),
        r == Err::<(), SequenceError>(SequenceError::End) <==> sequence_ok(m.tool_on_sequence) && sequence_ok(
            m.tool_off_sequence,
        ) && sequence_ok(m.begin_sequence) && !sequence_ok(m.end_sequence),
{
    if !sequence_is_valid(&m.tool_on_sequence) {
        return Err(SequenceError::ToolOn);
    }
    if !sequence_is_valid(&m.tool_off_sequence) {
        return Err(SequenceError::ToolOff);
    }
    if !sequence_is_valid(&m.begin_sequence) {
        return Err(SequenceError::Begin);
    }
    if !sequence_is_valid(&m.end_sequence) {
        return Err(SequenceError::End);
    }
    Ok(())
}

} // verus!
