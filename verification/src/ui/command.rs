//! Reading the command line that the user submits, and the texts that the
//! commands answer with.

use vstd::prelude::*;
use crate::model::packet::Packet;
use crate::source::live::CaptureMsg;
use crate::source::pcap_file::ReadResult;
use crate::text::{dec, hex_digit, push_char, push_dec, push_str};

verus! {

/// Unicode white space, as `char::is_whitespace` defines it (the
/// `White_Space` property).
pub open spec fn is_space(c: char) -> bool {
    let u = c as u32;
    ||| 0x09 <= u <= 0x0D
    ||| u == 0x20
    ||| u == 0x85
    ||| u == 0xA0
    ||| u == 0x1680
    ||| 0x2000 <= u <= 0x200A
    ||| u == 0x2028
    ||| u == 0x2029
    ||| u == 0x202F
    ||| u == 0x205F
    ||| u == 0x3000
}

/// Checks `is_space`.
pub fn char_is_space(c: char) -> (b: bool)
    ensures
        b == is_space(c),
{
    let u = c as u32;
    (0x09 <= u && u <= 0x0D) || u == 0x20 || u == 0x85 || u == 0xA0 || u == 0x1680 || (0x2000 <= u
        && u <= 0x200A) || u == 0x2028 || u == 0x2029 || u == 0x202F || u == 0x205F || u == 0x3000
}

/// The words of `s[i..]`: maximal runs of non-space characters, the first
/// of them continuing `cur`.
pub open spec fn words_from(s: Seq<char>, i: int, cur: Seq<char>) -> Seq<Seq<char>>
    decreases s.len() - i,
{
    if i < 0 || i >= s.len() {
        if cur.len() > 0 {
            seq![cur]
        } else {
            seq![]
        }
    } else if is_space(s[i]) {
        if cur.len() > 0 {
            seq![cur] + words_from(s, i + 1, seq![])
        } else {
            words_from(s, i + 1, seq![])
        }
    } else {
        words_from(s, i + 1, cur.push(s[i]))
    }
}

/// The words of `s`, as `str::split_whitespace` gives them.
pub open spec fn words(s: Seq<char>) -> Seq<Seq<char>> {
    words_from(s, 0, seq![])
}

/// How many white-space characters `s` begins with.
pub open spec fn leading_space(s: Seq<char>) -> nat
    decreases s.len(),
{
    if s.len() > 0 && is_space(s[0]) {
        1 + leading_space(s.drop_first())
    } else {
        0
    }
}

/// How many white-space characters `s` ends with.
pub open spec fn trailing_space(s: Seq<char>) -> nat
    decreases s.len(),
{
    if s.len() > 0 && is_space(s.last()) {
        1 + trailing_space(s.drop_last())
    } else {
        0
    }
}

/// `s` without leading and trailing white space, as `str::trim` gives it.
pub open spec fn trim(s: Seq<char>) -> Seq<char> {
    let a = leading_space(s);
    if a == s.len() {
        seq![]
    } else {
        s.subrange(a as int, s.len() - trailing_space(s))
    }
}

/// The characters of `s`, in order.
pub fn chars_of(s: &str) -> (v: Vec<char>)
    ensures
        v@ == s@,
{
    let mut v: Vec<char> = Vec::new();
    for c in it: s.chars()
        invariant
            v@ == it.seq().take(it.index() as int),
            it.seq() == s@,
    {
        v.push(c);
    }
    v
}

/// Splits `s` into its words.
pub fn split_words(s: &Vec<char>) -> (w: Vec<String>)
    ensures
        w@.map_values(|x: String| x@) == words(s@),
{
    let mut out: Vec<String> = Vec::new();
    let mut cur = String::new();
    let mut in_word = false;
    let mut i: usize = 0;
    while i < s.len()
        invariant
            i <= s@.len(),
            in_word == (cur@.len() > 0),
            out@.map_values(|x: String| x@) + words_from(s@, i as int, cur@) == words(s@),
        decreases s@.len() - i,
    {
        let ghost before = out@.map_values(|x: String| x@);
        let ghost old_cur = cur@;
        if char_is_space(s[i]) {
            if in_word {
                let word = cur;
                cur = String::new();
                out.push(word);
                in_word = false;
                assert(out@.map_values(|x: String| x@) =~= before.push(word@));
                assert(words_from(s@, i as int, old_cur) == seq![old_cur] + words_from(s@, i + 1, seq![]));
                assert(before + words_from(s@, i as int, old_cur) =~= before.push(old_cur) + words_from(s@, i + 1, seq![]));
            }
            assert(words_from(s@, i as int, old_cur) == (if old_cur.len() > 0 {
                seq![old_cur] + words_from(s@, i + 1, seq![])
            } else {
                words_from(s@, i + 1, seq![])
            }));
            assert(cur@ == Seq::<char>::empty());
        } else {
            push_char(&mut cur, s[i]);
            in_word = true;
            assert(words_from(s@, i as int, old_cur) == words_from(s@, i + 1, old_cur.push(s@[i as int])));
        }
        assert(out@.map_values(|x: String| x@) + words_from(s@, i + 1, cur@) =~= words(s@));
        i = i + 1;
    }
    if in_word {
        out.push(cur);
        assert(out@.map_values(|x: String| x@) =~= words(s@));
    } else {
        assert(out@.map_values(|x: String| x@) =~= words(s@));
    }
    out
}

/// `s` without its leading and trailing white space.
pub fn trim_chars(s: &Vec<char>) -> (t: String)
    ensures
        t@ == trim(s@),
{
    let n = s.len();
    let mut a: usize = 0;
    assert(s@.subrange(0, n as int) =~= s@);
    while a < n && char_is_space(s[a])
        invariant
            a <= n == s@.len(),
            leading_space(s@) == a + leading_space(s@.subrange(a as int, n as int)),
        decreases n - a,
    {
        let ghost rest = s@.subrange(a as int, n as int);
        assert(rest.drop_first() =~= s@.subrange(a + 1, n as int));
        a = a + 1;
    }
    assert(leading_space(s@.subrange(a as int, n as int)) == 0);
    if a == n {
        return String::new();
    }
    let mut b: usize = 0;
    while b < n && char_is_space(s[n - 1 - b])
        invariant
            b <= n == s@.len(),
            a < n,
            !is_space(s@[a as int]),
            a < n - b,
            trailing_space(s@) == b + trailing_space(s@.subrange(0, n - b)),
        decreases n - b,
    {
        let ghost rest = s@.subrange(0, n - b);
        assert(rest.drop_last() =~= s@.subrange(0, n - b - 1));
        b = b + 1;
    }
    assert(trailing_space(s@.subrange(0, n - b)) == 0);
    let mut t = String::new();
    let mut k: usize = a;
    while k < n - b
        invariant
            a <= k <= n - b,
            n == s@.len(),
            t@ == s@.subrange(a as int, k as int),
        decreases n - b - k,
    {
        push_char(&mut t, s[k]);
        assert(t@ =~= s@.subrange(a as int, k + 1));
        k = k + 1;
    }
    t
}

/// A decimal digit.
pub open spec fn is_digit(c: char) -> bool {
    48 <= (c as u32) <= 57
}

/// The value of a string of decimal digits.
pub open spec fn digits_value(d: Seq<char>) -> nat
    decreases d.len(),
{
    if d.len() == 0 {
        0
    } else {
        digits_value(d.drop_last()) * 10 + ((d.last() as u32) - 48) as nat
    }
}

/// The digits of an index: `s` without a leading `+`, if it has one.
pub open spec fn unsigned_digits(s: Seq<char>) -> Seq<char> {
    if s.len() > 0 && s[0] == '+' {
        s.drop_first()
    } else {
        s
    }
}

/// `s` as an index, as `usize::from_str` reads it: an optional `+`, then one
/// or more decimal digits whose value fits a `usize`.
pub open spec fn index_value(s: Seq<char>) -> Option<usize> {
    let d = unsigned_digits(s);
    if d.len() > 0 && (forall|i: int| 0 <= i < d.len() ==> is_digit(#[trigger] d[i]))
        && digits_value(d) <= usize::MAX {
        Some(digits_value(d) as usize)
    } else {
        None
    }
}

proof fn lemma_digits_prefix(d: Seq<char>, k: int)
    requires
        0 <= k <= d.len(),
    ensures
        digits_value(d.take(k)) <= digits_value(d),
    decreases d.len(),
{
    if k < d.len() {
        lemma_digits_prefix(d.drop_last(), k);
        assert(d.drop_last().take(k) =~= d.take(k));
    } else {
        assert(d.take(k) =~= d);
    }
}

/// Reads an index as `usize::from_str` does.
pub fn parse_index(s: &str) -> (r: Option<usize>)
    ensures
        r == index_value(s@),
{
    let c = chars_of(s);
    let mut i: usize = 0;
    if c.len() > 0 && c[0] == '+' {
        i = 1;
    }
    let ghost d = unsigned_digits(s@);
    assert(d =~= c@.subrange(i as int, c@.len() as int));
    if i == c.len() {
        return None;
    }
    let mut value: usize = 0;
    let mut k: usize = i;
    while k < c.len()
        invariant
            i <= k <= c@.len(),
            c@ == s@,
            d == c@.subrange(i as int, c@.len() as int),
            d == unsigned_digits(s@),
            d.len() > 0,
            forall|j: int| 0 <= j < k - i ==> is_digit(#[trigger] d[j]),
            value == digits_value(d.take(k - i)),
        decreases c@.len() - k,
    {
        let ch = c[k];
        let u = ch as u32;
        if u < 48 || u > 57 {
            assert(!is_digit(d[k - i]));
            return None;
        }
        let next: u128 = (value as u128) * 10 + ((u - 48) as u128);
        assert(d.take(k - i + 1).drop_last() =~= d.take(k - i));
        if next > usize::MAX as u128 {
            proof {
                lemma_digits_prefix(d, k - i + 1);
            }
            return None;
        }
        value = next as usize;
        k = k + 1;
    }
    assert(d.take(k - i) =~= d);
    Some(value)
}

/// Whether two texts are the same.
pub fn same_text(a: &str, b: &str) -> (r: bool)
    ensures
        r == (a@ == b@),
{
    let x = chars_of(a);
    let y = chars_of(b);
    if x.len() != y.len() {
        return false;
    }
    let mut i: usize = 0;
    while i < x.len()
        invariant
            i <= x@.len() == y@.len(),
            x@ == a@,
            y@ == b@,
            forall|j: int| 0 <= j < i ==> x@[j] == y@[j],
        decreases x@.len() - i,
    {
        if x[i] != y[i] {
            return false;
        }
        i = i + 1;
    }
    assert(x@ =~= y@);
    true
}

/// A command the user can run.
pub enum Command {
    Help,
    Version,
    /// `read`, with the path if one was given.
    Read(Option<String>),
    Devices,
    /// `live`, with the interface index text if one was given.
    Live(Option<String>),
    /// Any other first word.
    Unknown(String),
}

/// The view of an optional text.
pub open spec fn opt_text(o: Option<String>) -> Option<Seq<char>> {
    match o {
        Some(s) => Some(s@),
        None => None,
    }
}

impl Command {
    /// `self` is the command that the words name: the first word selects it
    /// and the second, if any, is its argument; further words are ignored.
    pub open spec fn parsed_from(&self, ws: Seq<Seq<char>>) -> bool {
        let name = ws[0];
        let arg = if ws.len() > 1 {
            Some(ws[1])
        } else {
            None
        };
        if name == "help"@ {
            self is Help
        } else if name == "version"@ {
            self is Version
        } else if name == "read"@ {
            self matches Command::Read(p) && opt_text(*p) == arg
        } else if name == "devices"@ {
            self is Devices
        } else if name == "live"@ {
            self matches Command::Live(p) && opt_text(*p) == arg
        } else {
            self matches Command::Unknown(c) && c@ == name
        }
    }

    /// Reads the command that a list of words names.
    pub fn from_words(ws: Vec<String>) -> (c: Command)
        requires
            ws@.len() > 0,
        ensures
            c.parsed_from(ws@.map_values(|x: String| x@)),
    {
        let ghost v = ws@.map_values(|x: String| x@);
        let mut ws = ws;
        let arg = if ws.len() > 1 {
            Some(ws.remove(1))
        } else {
            None
        };
        assert(opt_text(arg) == if v.len() > 1 { Some(v[1]) } else { None::<Seq<char>> });
        let name = ws.swap_remove(0);
        assert(name@ == v[0]);
        if same_text(name.as_str(), "help") {
            Command::Help
        } else if same_text(name.as_str(), "version") {
            Command::Version
        } else if same_text(name.as_str(), "read") {
            Command::Read(arg)
        } else if same_text(name.as_str(), "devices") {
            Command::Devices
        } else if same_text(name.as_str(), "live") {
            Command::Live(arg)
        } else {
            Command::Unknown(name)
        }
    }
}

/// What a submitted input line asks for.
pub enum Submission {
    /// `exit` or `quit`.
    Quit,
    /// Nothing but white space.
    Blank,
    /// A command; `echo` is the trimmed line, to be shown back.
    Run { echo: String, command: Command },
}

/// Reads a submitted input line: it is trimmed, `exit` and `quit` end the
/// session, a blank line does nothing, and anything else names a command.
pub fn submit(input: &str) -> (r: Submission)
    ensures
        ({
            let t = trim(input@);
            if t == "exit"@ || t == "quit"@ {
                r is Quit
            } else if t.len() == 0 {
                r is Blank
            } else {
                r matches Submission::Run { echo, command } && echo@ == t
                    && command.parsed_from(words(t))
            }
        }),
{
    let chars = chars_of(input);
    let line = trim_chars(&chars);
    if same_text(line.as_str(), "exit") || same_text(line.as_str(), "quit") {
        return Submission::Quit;
    }
    let t = chars_of(line.as_str());
    if t.len() == 0 {
        return Submission::Blank;
    }
    let ws = split_words(&t);
    proof {
        lemma_nonblank_has_word(input@);
    }
    let command = Command::from_words(ws);
    Submission::Run { echo: line, command }
}

/// A line that is not blank has at least one word.
proof fn lemma_nonblank_has_word(s: Seq<char>)
    requires
        trim(s).len() > 0,
    ensures
        words(trim(s)).len() > 0,
{
    lemma_leading_space_stops(s);
    if leading_space(s) < s.len() {
        lemma_trailing_space_stops(s, leading_space(s) as int);
    }
    assert(trim(s)[0] == s[leading_space(s) as int]);
    lemma_words_from_nonempty(trim(s), 0, seq![]);
}

proof fn lemma_trailing_space_stops(s: Seq<char>, j: int)
    requires
        0 <= j < s.len(),
        !is_space(s[j]),
    ensures
        trailing_space(s) <= s.len() - 1 - j,
    decreases s.len(),
{
    if is_space(s.last()) {
        lemma_trailing_space_stops(s.drop_last(), j);
    }
}

proof fn lemma_leading_space_stops(s: Seq<char>)
    ensures
        leading_space(s) <= s.len(),
        leading_space(s) < s.len() ==> !is_space(s[leading_space(s) as int]),
    decreases s.len(),
{
    if s.len() > 0 && is_space(s[0]) {
        lemma_leading_space_stops(s.drop_first());
    }
}

proof fn lemma_words_from_nonempty(s: Seq<char>, i: int, cur: Seq<char>)
    requires
        0 <= i,
        cur.len() > 0 || (i < s.len() && !is_space(s[i])),
    ensures
        words_from(s, i, cur).len() > 0,
    decreases s.len() - i,
{
    if i < s.len() {
        if is_space(s[i]) {
        } else {
            lemma_words_from_nonempty(s, i + 1, cur.push(s[i]));
        }
    }
}

/// How a line of output is shown.
#[derive(Clone, Copy)]
pub enum Tone {
    Plain,
    Dim,
    Error,
    Accent,
}

/// A line of output and how it is shown.
pub struct OutputLine {
    pub tone: Tone,
    pub text: String,
}

/// What running a command comes to.
pub enum Reply {
    /// Show these lines.
    Lines(Vec<OutputLine>),
    /// Read the capture file at this path, then show `read_report` of it.
    ReadFile(String),
    /// List the network devices, then show `devices_report` of the list.
    ListDevices,
    /// Start a live capture on the device with this index.
    StartCapture(usize),
}

/// `lines` shows exactly `expected`, tone and text, in order.
pub open spec fn shows(lines: Seq<OutputLine>, expected: Seq<(Tone, Seq<char>)>) -> bool {
    &&& lines.len() == expected.len()
    &&& forall|i: int|
        0 <= i < lines.len() ==> (#[trigger] lines[i]).tone == expected[i].0 && lines[i].text@
            == expected[i].1
}

/// `s` padded with spaces on the right to `width` characters.
pub open spec fn pad_right(s: Seq<char>, width: nat) -> Seq<char> {
    if s.len() < width {
        s + Seq::new((width - s.len()) as nat, |i: int| ' ')
    } else {
        s
    }
}

/// The commands that `help` lists, with their descriptions.
pub open spec fn help_entries() -> Seq<(Seq<char>, Seq<char>)> {
    seq![
        ("read <file.pcap>"@, "decode packets from a capture file"@),
        ("devices"@, "list available network interfaces"@),
        ("live <index>"@, "capture live traffic (not yet available here)"@),
        ("help"@, "show this help"@),
        ("version"@, "show version"@),
        ("exit"@, "quit rustygrab"@),
    ]
}

/// The `help` output: each command padded to 20 characters, then its
/// description, dimmed.
pub open spec fn help_text() -> Seq<(Tone, Seq<char>)> {
    Seq::new(
        help_entries().len(),
        |i: int| (Tone::Dim, pad_right(help_entries()[i].0, 20) + help_entries()[i].1),
    )
}

fn help_line(name: &str, desc: &str) -> (l: OutputLine)
    ensures
        l.tone == Tone::Dim,
        l.text@ == pad_right(name@, 20) + desc@,
{
    let mut text = String::new();
    push_str(&mut text, name);
    let n = chars_of(name).len();
    let mut k: usize = n;
    while k < 20
        invariant
            n == name@.len(),
            n <= k <= 20 || (k == n && n >= 20),
            text@ == name@ + Seq::new((k - n) as nat, |i: int| ' '),
        decreases 20 - k,
    {
        push_char(&mut text, ' ');
        assert(text@ =~= name@ + Seq::new((k + 1 - n) as nat, |i: int| ' '));
        k = k + 1;
    }
    assert(text@ =~= pad_right(name@, 20));
    push_str(&mut text, desc);
    OutputLine { tone: Tone::Dim, text }
}

/// The lines that `help` shows.
pub fn help_lines() -> (v: Vec<OutputLine>)
    ensures
        shows(v@, help_text()),
{
    let mut v: Vec<OutputLine> = Vec::new();
    v.push(help_line("read <file.pcap>", "decode packets from a capture file"));
    v.push(help_line("devices", "list available network interfaces"));
    v.push(help_line("live <index>", "capture live traffic (not yet available here)"));
    v.push(help_line("help", "show this help"));
    v.push(help_line("version", "show version"));
    v.push(help_line("exit", "quit rustygrab"));
    v
}

fn one_line(tone: Tone, text: String) -> (v: Vec<OutputLine>)
    ensures
        shows(v@, seq![(tone, text@)]),
{
    let mut v: Vec<OutputLine> = Vec::new();
    v.push(OutputLine { tone, text });
    v
}

fn literal(s: &str) -> (t: String)
    ensures
        t@ == s@,
{
    let mut t = String::new();
    push_str(&mut t, s);
    t
}

/// The reply to `command`; `capturing` tells whether a live capture is
/// running, and `version` is the program's version.
pub open spec fn reply_matches(r: Reply, command: Command, capturing: bool, version: Seq<char>) -> bool {
    match command {
        Command::Help => r matches Reply::Lines(ls) && shows(ls@, help_text()),
        Command::Version => r matches Reply::Lines(ls) && shows(
            ls@,
            seq![(Tone::Dim, "rustygrab "@ + version)],
        ),
        Command::Read(None) => r matches Reply::Lines(ls) && shows(
            ls@,
            seq![(Tone::Error, "usage: read <file.pcap>"@)],
        ),
        Command::Read(Some(path)) => r matches Reply::ReadFile(p) && p@ == path@,
        Command::Devices => r is ListDevices,
        Command::Live(arg) => if capturing {
            r matches Reply::Lines(ls) && shows(
                ls@,
                seq![(Tone::Error, "a capture is already running - press esc to stop it"@)],
            )
        } else {
            match arg {
                None => r matches Reply::Lines(ls) && shows(
                    ls@,
                    seq![(Tone::Error, "usage: live <index>"@)],
                ),
                Some(t) => match index_value(t@) {
                    None => r matches Reply::Lines(ls) && shows(
                        ls@,
                        seq![(Tone::Error, "interface index must be a number - try devices"@)],
                    ),
                    Some(i) => r == Reply::StartCapture(i),
                },
            }
        },
        Command::Unknown(c) => r matches Reply::Lines(ls) && shows(
            ls@,
            seq![(Tone::Error, "unknown command: "@ + c@ + " (try help)"@)],
        ),
    }
}

/// Decides what a command comes to.
pub fn respond(command: Command, capturing: bool, version: &str) -> (r: Reply)
    ensures
        reply_matches(r, command, capturing, version@),
{
    match command {
        Command::Help => Reply::Lines(help_lines()),
        Command::Version => {
            let mut t = String::new();
            push_str(&mut t, "rustygrab ");
            push_str(&mut t, version);
            Reply::Lines(one_line(Tone::Dim, t))
        },
        Command::Read(None) => Reply::Lines(one_line(Tone::Error, literal("usage: read <file.pcap>"))),
        Command::Read(Some(path)) => Reply::ReadFile(path),
        Command::Devices => Reply::ListDevices,
        Command::Live(arg) => {
            if capturing {
                Reply::Lines(
                    one_line(
                        Tone::Error,
                        literal("a capture is already running - press esc to stop it"),
                    ),
                )
            } else {
                match arg {
                    None => Reply::Lines(one_line(Tone::Error, literal("usage: live <index>"))),
                    Some(t) => match parse_index(t.as_str()) {
                        None => Reply::Lines(
                            one_line(
                                Tone::Error,
                                literal("interface index must be a number - try devices"),
                            ),
                        ),
                        Some(i) => Reply::StartCapture(i),
                    },
                }
            }
        },
        Command::Unknown(c) => {
            let mut t = String::new();
            push_str(&mut t, "unknown command: ");
            push_str(&mut t, c.as_str());
            push_str(&mut t, " (try help)");
            Reply::Lines(one_line(Tone::Error, t))
        },
    }
}

/// `N packets from PATH`.
pub open spec fn packets_from_text(n: nat, path: Seq<char>) -> Seq<char> {
    dec(n) + " packets from "@ + path
}

/// What a read shows: the error; or one plain line per packet with its
/// summary, the warning if there is one, and how many packets came from
/// which path.
pub open spec fn read_report_text(path: Seq<char>, res: Result<ReadResult, String>) -> Seq<(Tone, Seq<char>)> {
    match res {
        Err(e) => seq![(Tone::Error, e@)],
        Ok(r) => Seq::new(r.packets@.len(), |i: int| (Tone::Plain, r.packets@[i].summary_text()))
            + match r.warning {
            Some(w) => seq![(Tone::Error, w@)],
            None => seq![],
        } + seq![(Tone::Dim, packets_from_text(r.packets@.len(), path))],
    }
}

/// The lines that a read of the file at `path` shows.
pub fn read_report(path: &str, res: &Result<ReadResult, String>) -> (v: Vec<OutputLine>)
    ensures
        shows(v@, read_report_text(path@, *res)),
{
    match res {
        Err(e) => one_line(Tone::Error, e.clone()),
        Ok(r) => {
            let mut v: Vec<OutputLine> = Vec::new();
            let mut i: usize = 0;
            while i < r.packets.len()
                invariant
                    i <= r.packets@.len(),
                    shows(
                        v@,
                        Seq::new(i as nat, |j: int| (Tone::Plain, r.packets@[j].summary_text())),
                    ),
                decreases r.packets@.len() - i,
            {
                let line = r.packets[i].summary();
                v.push(OutputLine { tone: Tone::Plain, text: line });
                i = i + 1;
            }
            let ghost body = Seq::new(r.packets@.len(), |j: int| (Tone::Plain, r.packets@[j].summary_text()));
            let ghost warn = match &r.warning {
                Some(w) => seq![(Tone::Error, w@)],
                None => Seq::<(Tone, Seq<char>)>::empty(),
            };
            match &r.warning {
                Some(w) => {
                    v.push(OutputLine { tone: Tone::Error, text: w.clone() });
                },
                None => {},
            }
            assert(shows(v@, body + warn));
            let mut t = String::new();
            push_dec(&mut t, r.packets.len() as u64);
            push_str(&mut t, " packets from ");
            push_str(&mut t, path);
            v.push(OutputLine { tone: Tone::Dim, text: t });
            assert(shows(v@, body + warn + seq![(Tone::Dim, packets_from_text(r.packets@.len(), path@))]));
            v
        },
    }
}

/// What a device listing shows: the error, or one plain line per device.
pub open spec fn devices_report_text(res: Result<Vec<String>, String>) -> Seq<(Tone, Seq<char>)> {
    match res {
        Err(e) => seq![(Tone::Error, e@)],
        Ok(lines) => Seq::new(lines@.len(), |i: int| (Tone::Plain, lines@[i]@)),
    }
}

/// The lines that a device listing shows.
pub fn devices_report(res: &Result<Vec<String>, String>) -> (v: Vec<OutputLine>)
    ensures
        shows(v@, devices_report_text(*res)),
{
    match res {
        Err(e) => one_line(Tone::Error, e.clone()),
        Ok(lines) => {
            let mut v: Vec<OutputLine> = Vec::new();
            let mut i: usize = 0;
            while i < lines.len()
                invariant
                    i <= lines@.len(),
                    shows(v@, Seq::new(i as nat, |j: int| (Tone::Plain, lines@[j]@))),
                decreases lines@.len() - i,
            {
                v.push(OutputLine { tone: Tone::Plain, text: lines[i].clone() });
                i = i + 1;
            }
            v
        },
    }
}

/// `capturing on interface I - esc to stop`.
pub fn capture_started(index: usize) -> (t: String)
    ensures
        t@ == "capturing on interface "@ + dec(index as nat) + " - esc to stop"@,
{
    let mut t = String::new();
    push_str(&mut t, "capturing on interface ");
    push_dec(&mut t, index as u64);
    push_str(&mut t, " - esc to stop");
    t
}

/// `capture stopped - N packets`.
pub fn capture_stopped(count: usize) -> (t: String)
    ensures
        t@ == "capture stopped - "@ + dec(count as nat) + " packets"@,
{
    let mut t = String::new();
    push_str(&mut t, "capture stopped - ");
    push_dec(&mut t, count as u64);
    push_str(&mut t, " packets");
    t
}

/// What the interface found when it looked for a message from a running
/// capture.
pub enum Received {
    Message(CaptureMsg),
    /// No message is waiting.
    Empty,
    /// The capture's sending side is gone.
    Disconnected,
}

/// What the interface does with what it found.
pub enum DrainAction {
    /// Show this line and look for the next message.
    Show(OutputLine),
    /// The capture has finished.
    Finished,
    /// Nothing to show now; look again on the next frame.
    Wait,
}

/// Handles one look for a capture message, given how many packet lines the
/// capture has shown so far. A packet summary is shown plainly and counted;
/// an error report is shown as an error; the end of the capture, or a
/// vanished sender, finishes it; no message means waiting.
pub fn on_received(count: usize, r: Received) -> (res: (usize, DrainAction))
    requires
        r matches Received::Message(CaptureMsg::Line(_)) ==> count < usize::MAX,
    ensures
        match r {
            Received::Message(CaptureMsg::Line(s)) => {
                &&& res.0 == count + 1
                &&& res.1 matches DrainAction::Show(o) && o.tone == Tone::Plain && o.text@ == s@
            },
            Received::Message(CaptureMsg::Error(e)) => {
                &&& res.0 == count
                &&& res.1 matches DrainAction::Show(o) && o.tone == Tone::Error && o.text@ == e@
            },
            Received::Message(CaptureMsg::Ended) | Received::Disconnected => {
                &&& res.0 == count
                &&& res.1 is Finished
            },
            Received::Empty => {
                &&& res.0 == count
                &&& res.1 is Wait
            },
        },
{
    match r {
        Received::Message(CaptureMsg::Line(s)) => (
            count + 1,
            DrainAction::Show(OutputLine { tone: Tone::Plain, text: s }),
        ),
        Received::Message(CaptureMsg::Error(e)) => (
            count,
            DrainAction::Show(OutputLine { tone: Tone::Error, text: e }),
        ),
        Received::Message(CaptureMsg::Ended) => (count, DrainAction::Finished),
        Received::Disconnected => (count, DrainAction::Finished),
        Received::Empty => (count, DrainAction::Wait),
    }
}

proof fn lemma_digit_code(d: nat)
    requires
        d < 10,
    ensures
        hex_digit(d) as u32 == 48 + d,
{
}

proof fn lemma_dec_digits(n: nat)
    ensures
        dec(n).len() > 0,
        forall|i: int| 0 <= i < dec(n).len() ==> is_digit(#[trigger] dec(n)[i]),
        digits_value(dec(n)) == n,
    decreases n,
{
    lemma_digit_code(n % 10);
    if n < 10 {
        assert(dec(n).drop_last() =~= Seq::<char>::empty());
        assert(dec(n).last() == hex_digit(n));
        assert(digits_value(dec(n)) == digits_value(dec(n).drop_last()) * 10 + ((dec(n).last() as u32) - 48) as nat);
        assert(digits_value(Seq::<char>::empty()) == 0);
    } else {
        lemma_dec_digits(n / 10);
        assert(dec(n).drop_last() =~= dec(n / 10));
        assert(dec(n).last() == hex_digit(n % 10));
        assert((n / 10) * 10 + n % 10 == n);
        assert(digits_value(dec(n)) == digits_value(dec(n).drop_last()) * 10 + ((dec(n).last() as u32) - 48) as nat);
        assert forall|i: int| 0 <= i < dec(n).len() implies is_digit(#[trigger] dec(n)[i]) by {
            if i < dec(n).len() - 1 {
                assert(dec(n)[i] == dec(n / 10)[i]);
            }
        }
    }
}

/// Reading the decimal text of an index gives the index back: the texts
/// that report interface numbers and packet counts are the ones that
/// `live <index>` accepts.
pub proof fn law_index_text_round_trip(i: usize)
    ensures
        index_value(dec(i as nat)) == Some(i),
{
    lemma_dec_digits(i as nat);
    assert(is_digit(dec(i as nat)[0]));
    assert(unsigned_digits(dec(i as nat)) == dec(i as nat));
}

/// What a read shows, line by line: a failed read shows its error and
/// nothing else; a successful read shows every packet's summary plainly, in
/// order, then its warning as an error if it has one, and always ends with
/// `N packets from PATH`, dimmed, N being the number of packets. So a read
/// without a warning shows exactly one line more than it has packets.
pub proof fn law_read_report_lines(path: Seq<char>, res: Result<ReadResult, String>, v: Seq<OutputLine>)
    requires
        shows(v, read_report_text(path, res)),
    ensures
        res matches Err(e) ==> v.len() == 1 && v[0].tone == Tone::Error && v[0].text@ == e@,
        res matches Ok(r) ==> {
            let n = r.packets@.len();
            let w: int = if r.warning is Some { 1 } else { 0 };
            &&& v.len() == n + w + 1
            &&& forall|i: int|
                0 <= i < n ==> (#[trigger] v[i]).tone == Tone::Plain && v[i].text@
                    == r.packets@[i].summary_text()
            &&& r.warning matches Some(m) ==> v[n as int].tone == Tone::Error && v[n as int].text@
                == m@
            &&& v[v.len() - 1].tone == Tone::Dim
            &&& v[v.len() - 1].text@ == dec(n) + " packets from "@ + path
        },
{
    match res {
        Err(e) => {},
        Ok(r) => {
            let n = r.packets@.len();
            let t = read_report_text(path, res);
            let body = Seq::new(n, |i: int| (Tone::Plain, r.packets@[i].summary_text()));
            let warn: Seq<(Tone, Seq<char>)> = match r.warning {
                Some(w) => seq![(Tone::Error, w@)],
                None => seq![],
            };
            assert(t == body + warn + seq![(Tone::Dim, packets_from_text(n, path))]);
            assert forall|i: int| 0 <= i < n implies (#[trigger] v[i]).tone == Tone::Plain
                && v[i].text@ == r.packets@[i].summary_text() by {
                assert(t[i] == body[i]);
            }
            if r.warning is Some {
                assert(t[n as int] == warn[0]);
            }
            assert(t[t.len() - 1] == (Tone::Dim, packets_from_text(n, path)));
        },
    }
}

/// A device listing shows, for a failed listing, its error alone, and for a
/// successful one exactly one plain line per listed device, the `i`-th line
/// being the `i`-th device's text, from the first device on.
pub proof fn law_devices_report_lines(res: Result<Vec<String>, String>, v: Seq<OutputLine>)
    requires
        shows(v, devices_report_text(res)),
    ensures
        res matches Err(e) ==> v.len() == 1 && v[0].tone == Tone::Error && v[0].text@ == e@,
        res matches Ok(lines) ==> {
            &&& v.len() == lines@.len()
            &&& forall|i: int|
                0 <= i < lines@.len() ==> (#[trigger] v[i]).tone == Tone::Plain && v[i].text@
                    == lines@[i]@
        },
{
    match res {
        Err(e) => {},
        Ok(lines) => {
            let t = devices_report_text(res);
            assert forall|i: int| 0 <= i < lines@.len() implies (#[trigger] v[i]).tone == Tone::Plain
                && v[i].text@ == lines@[i]@ by {
                assert(t[i] == (Tone::Plain, lines@[i]@));
            }
        },
    }
}

/// Not white space.
pub open spec fn is_text_char(c: char) -> bool {
    !is_space(c)
}

proof fn lemma_words_from_flat(s: Seq<char>, i: int, cur: Seq<char>)
    requires
        0 <= i <= s.len(),
        forall|k: int| 0 <= k < cur.len() ==> !is_space(#[trigger] cur[k]),
    ensures
        words_from(s, i, cur).flatten() == cur + s.skip(i).filter(|c: char| is_text_char(c)),
        forall|w: int|
            0 <= w < words_from(s, i, cur).len() ==> (#[trigger] words_from(s, i, cur)[w]).len() > 0
                && forall|k: int|
                0 <= k < words_from(s, i, cur)[w].len() ==> !is_space(
                    #[trigger] words_from(s, i, cur)[w][k],
                ),
    decreases s.len() - i,
{
    let p = |c: char| is_text_char(c);
    if i == s.len() {
        assert(s.skip(i) =~= Seq::<char>::empty());
        assert(Seq::<char>::empty().filter(p) =~= Seq::<char>::empty());
        if cur.len() > 0 {
            let one = seq![cur];
            assert(one.drop_first() =~= Seq::<Seq<char>>::empty());
            assert(one.drop_first().flatten() == Seq::<char>::empty());
            assert(one.first() == cur);
            assert(one.flatten() == one.first() + one.drop_first().flatten());
            assert(one.flatten() =~= cur);
        } else {
            assert(cur =~= Seq::<char>::empty());
        }
    } else {
        assert(s.skip(i) =~= seq![s[i]] + s.skip(i + 1));
        s.skip(i + 1).lemma_filter_prepend(s[i], p);
        if is_space(s[i]) {
            lemma_words_from_flat(s, i + 1, seq![]);
            let rest = words_from(s, i + 1, seq![]);
            if cur.len() > 0 {
                let all = seq![cur] + rest;
                assert(all.drop_first() =~= rest);
                assert(all.flatten() == cur + rest.flatten());
                assert forall|w: int| 0 <= w < all.len() implies (#[trigger] all[w]).len() > 0
                    && forall|k: int| 0 <= k < all[w].len() ==> !is_space(#[trigger] all[w][k]) by {
                    if w > 0 {
                        assert(all[w] == rest[w - 1]);
                    }
                }
            }
            assert(Seq::<char>::empty() + s.skip(i + 1).filter(p) =~= s.skip(i + 1).filter(p));
            assert(cur + s.skip(i).filter(p) =~= cur + s.skip(i + 1).filter(p));
        } else {
            let next = cur.push(s[i]);
            assert forall|k: int| 0 <= k < next.len() implies !is_space(#[trigger] next[k]) by {
                if k < cur.len() {
                    assert(next[k] == cur[k]);
                }
            }
            lemma_words_from_flat(s, i + 1, next);
            assert(next + s.skip(i + 1).filter(p) =~= cur + (seq![s[i]] + s.skip(i + 1).filter(p)));
        }
    }
}

/// The words of a line hold all of its characters but the white space, in
/// order, and nothing else: each word is non-empty and free of white space,
/// and the words put together give the line with its white space removed.
pub proof fn law_words_keep_text(s: Seq<char>)
    ensures
        words(s).flatten() == s.filter(|c: char| is_text_char(c)),
        forall|w: int|
            0 <= w < words(s).len() ==> (#[trigger] words(s)[w]).len() > 0 && forall|k: int|
                0 <= k < words(s)[w].len() ==> !is_space(#[trigger] words(s)[w][k]),
{
    lemma_words_from_flat(s, 0, seq![]);
    assert(s.skip(0) =~= s);
    assert(Seq::<char>::empty() + s.filter(|c: char| is_text_char(c)) =~= s.filter(|c: char| is_text_char(c)));
}

/// What each command comes to: `read PATH` reads exactly that path and
/// `devices` lists the devices; `live N` starts a capture on interface N,
/// the number that N's digits spell, whenever no capture runs and N is a
/// plain number that fits, and no reply starts a capture while one runs or
/// without such a number; `version` shows `rustygrab ` and the version;
/// `help` shows six dimmed lines; an unknown command is named back in an
/// error.
pub proof fn law_reply_by_command(command: Command, capturing: bool, version: Seq<char>, r: Reply)
    requires
        reply_matches(r, command, capturing, version),
    ensures
        command matches Command::Read(Some(p)) ==> (r matches Reply::ReadFile(q) && q@ == p@),
        command is Devices ==> r is ListDevices,
        capturing ==> !(r is StartCapture),
        r matches Reply::StartCapture(i) ==> (command matches Command::Live(Some(t)) && index_value(
            t@,
        ) == Some(i)),
        (command matches Command::Live(Some(t)) && !capturing && t@.len() > 0 && (forall|k: int|
            0 <= k < t@.len() ==> is_digit(#[trigger] t@[k])) && digits_value(t@) <= usize::MAX)
            ==> r == Reply::StartCapture(digits_value(command->Live_0->0@) as usize),
        command is Version ==> (r matches Reply::Lines(ls) && ls@.len() == 1 && ls@[0].tone
            == Tone::Dim && ls@[0].text@ == "rustygrab "@ + version),
        command is Help ==> (r matches Reply::Lines(ls) && ls@.len() == 6 && forall|k: int|
            0 <= k < 6 ==> (#[trigger] ls@[k]).tone == Tone::Dim),
        command matches Command::Unknown(c) ==> (r matches Reply::Lines(ls) && ls@.len() == 1
            && ls@[0].tone == Tone::Error && ls@[0].text@ == "unknown command: "@ + c@
            + " (try help)"@),
{
    if let Command::Live(Some(t)) = command {
        if t@.len() > 0 && t@[0] == '+' {
            assert(!is_digit('+'));
        }
        if t@.len() > 0 && !(t@[0] == '+') {
            assert(unsigned_digits(t@) == t@);
        }
    }
    if command is Help {
        assert(help_text().len() == 6);
    }
}

/// Trimming removes white space from both ends and nothing else: the line
/// is its white-space prefix, the trimmed text, and its white-space suffix;
/// and the trimmed text is empty or begins and ends with a character that
/// is not white space.
pub proof fn law_trim_strips_ends(s: Seq<char>)
    ensures
        exists|a: int, b: int|
            0 <= a <= b <= s.len() && #[trigger] s.subrange(a, b) == trim(s) && (forall|k: int|
                0 <= k < a ==> is_space(#[trigger] s[k])) && (forall|k: int|
                b <= k < s.len() ==> is_space(#[trigger] s[k])),
        trim(s).len() > 0 ==> !is_space(trim(s)[0]) && !is_space(trim(s).last()),
{
    lemma_leading_space_stops(s);
    lemma_leading_all_space(s);
    lemma_trailing_all_space(s);
    let a = leading_space(s) as int;
    if a == s.len() {
        assert(s.subrange(a, a) =~= trim(s));
    } else {
        lemma_trailing_space_stops(s, a);
        lemma_trailing_space_last(s);
        let b = s.len() - trailing_space(s);
        assert(s.subrange(a, b) == trim(s));
    }
}

proof fn lemma_leading_all_space(s: Seq<char>)
    ensures
        forall|k: int| 0 <= k < leading_space(s) ==> is_space(#[trigger] s[k]),
    decreases s.len(),
{
    lemma_leading_space_stops(s);
    if s.len() > 0 && is_space(s[0]) {
        lemma_leading_all_space(s.drop_first());
        assert forall|k: int| 0 <= k < leading_space(s) implies is_space(#[trigger] s[k]) by {
            if k > 0 {
                assert(s[k] == s.drop_first()[k - 1]);
            }
        }
    }
}

proof fn lemma_trailing_all_space(s: Seq<char>)
    ensures
        trailing_space(s) <= s.len(),
        forall|k: int| s.len() - trailing_space(s) <= k < s.len() ==> is_space(#[trigger] s[k]),
    decreases s.len(),
{
    if s.len() > 0 && is_space(s.last()) {
        lemma_trailing_all_space(s.drop_last());
        assert forall|k: int| s.len() - trailing_space(s) <= k < s.len() implies is_space(#[trigger] s[k]) by {
            if k < s.len() - 1 {
                assert(s[k] == s.drop_last()[k]);
            }
        }
    }
}

proof fn lemma_trailing_space_last(s: Seq<char>)
    ensures
        trailing_space(s) < s.len() ==> !is_space(s[s.len() - 1 - trailing_space(s)]),
    decreases s.len(),
{
    if s.len() > 0 && is_space(s.last()) {
        lemma_trailing_space_last(s.drop_last());
    }
}

/// Each help line starts with its command as written, fills with spaces up
/// to column 20, and ends with its description from column 20 on.
pub proof fn law_help_columns()
    ensures
        forall|i: int|
            0 <= i < help_text().len() ==> {
                let name = (#[trigger] help_entries()[i]).0;
                let line = help_text()[i].1;
                &&& name.len() < 20
                &&& line.subrange(0, name.len() as int) == name
                &&& forall|k: int| name.len() <= k < 20 ==> line[k] == ' '
                &&& line.skip(20) == help_entries()[i].1
            },
{
    reveal_strlit("read <file.pcap>");
    reveal_strlit("devices");
    reveal_strlit("live <index>");
    reveal_strlit("help");
    reveal_strlit("version");
    reveal_strlit("exit");
    assert forall|i: int| 0 <= i < help_text().len() implies {
        let name = (#[trigger] help_entries()[i]).0;
        let line = help_text()[i].1;
        &&& name.len() < 20
        &&& line.subrange(0, name.len() as int) == name
        &&& forall|k: int| name.len() <= k < 20 ==> line[k] == ' '
        &&& line.skip(20) == help_entries()[i].1
    } by {
        let name = help_entries()[i].0;
        let desc = help_entries()[i].1;
        let pad = Seq::new((20 - name.len()) as nat, |j: int| ' ');
        assert(name.len() < 20);
        assert(help_text()[i].1 == name + pad + desc);
        assert((name + pad + desc).subrange(0, name.len() as int) =~= name);
        assert((name + pad + desc).skip(20) =~= desc);
    }
}

} // verus!
