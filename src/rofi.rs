use vstd::prelude::*;

use crate::error::Error;
use crate::text::{
    append_repeated, copy_range, decimal, decimal_text, decode_utf8_bytes, pad_right, texts,
};

verus! {

/// How many custom keybindings the selector supports.
pub const MAX_CUSTOM_KEYBINDINGS: usize = 19;

/// The exit status with which the selector reports the first custom keybinding.
pub const FIRST_CUSTOM_EXIT_CODE: i32 = 10;

/// The width to which the description of a keybinding in the left column is
/// padded.
pub const MESSAGE_COLUMN_WIDTH: usize = 35;

/// A command that can be shown to the user.
pub trait CommandLabel: Sized + Copy {
    /// The text shown for the command.
    spec fn spec_label(&self) -> Seq<char>;

    /// The text shown for the command.
    fn label(&self) -> (r: String)
        ensures
            r@ == self.spec_label(),
    ;
}

/// A key chord and the command it invokes.
#[derive(Debug)]
pub struct Keybind<TCommand> {
    pub binding: String,
    pub command: TCommand,
}

/// The commands that the selector can report: a default one for a plain
/// accept, and up to [`MAX_CUSTOM_KEYBINDINGS`] custom ones in registration
/// order.
#[derive(Debug)]
pub struct RofiCustomKeybindings<TCommand> {
    select_command: TCommand,
    keybinds: Vec<Keybind<TCommand>>,
}

/// The command that exit status `code` reports, given the default command and
/// the custom commands in registration order: status 0 is the default, status
/// `10 + k` the `k`-th custom command (for the 19 custom slots), anything else
/// none.
pub open spec fn command_for_code<C>(select: C, commands: Seq<C>, code: Option<i32>) -> Option<C> {
    match code {
        None => None,
        Some(c) => if c == 0 {
            Some(select)
        } else if 10 <= c <= 28 && c - 10 < commands.len() {
            Some(commands[c - 10])
        } else {
            None
        },
    }
}

/// How one keybinding is described: `binding: label`.
pub open spec fn keybind_text<C: CommandLabel>(k: Keybind<C>) -> Seq<char> {
    k.binding@ + seq![':', ' '] + k.command.spec_label()
}

/// The description of the `i`-th keybinding in the message: the even ones
/// start a new row and are padded into a column, the odd ones follow them.
pub open spec fn keybind_cell(i: int, text: Seq<char>) -> Seq<char> {
    if i % 2 == 0 {
        let cell = pad_right(text, 35, ' ');
        if i == 0 {
            cell
        } else {
            seq!['\n'] + cell
        }
    } else {
        text
    }
}

/// The descriptions of the first `n` keybindings.
pub open spec fn keybind_cells<C: CommandLabel>(ks: Seq<Keybind<C>>, n: int) -> Seq<char>
    decreases n,
{
    if n <= 0 {
        seq![]
    } else {
        keybind_cells(ks, n - 1) + keybind_cell(n - 1, keybind_text(ks[n - 1]))
    }
}

impl<TCommand: CommandLabel> RofiCustomKeybindings<TCommand> {
    /// The default command.
    pub closed spec fn select_command(&self) -> TCommand {
        self.select_command
    }

    /// The custom keybindings in registration order.
    pub closed spec fn bindings(&self) -> Seq<Keybind<TCommand>> {
        self.keybinds@
    }

    /// The custom commands in registration order.
    pub open spec fn commands(&self) -> Seq<TCommand> {
        self.bindings().map_values(|k: Keybind<TCommand>| k.command)
    }

    /// The table has room for no more than the supported custom keybindings.
    pub open spec fn wf(&self) -> bool {
        self.bindings().len() <= MAX_CUSTOM_KEYBINDINGS
    }

    /// The text that describes the table to the user.
    pub open spec fn message(&self) -> Seq<char> {
        seq!['e', 'n', 't', 'e', 'r', ':', ' '] + self.select_command().spec_label() + seq!['\n']
            + keybind_cells(self.bindings(), self.bindings().len() as int)
    }

    /// A table with the default command and no custom keybindings.
    pub fn new(select_command: TCommand) -> (r: Self)
        ensures
            r.select_command() == select_command,
            r.bindings().len() == 0,
            r.wf(),
    {
        RofiCustomKeybindings { select_command, keybinds: Vec::new() }
    }

    /// Registers `command` under the key chord `keybind`; fails when the table
    /// is full.
    pub fn add(self, keybind: &str, command: TCommand) -> (r: Result<Self, Error>)
        ensures
            r is Ok <==> self.bindings().len() < MAX_CUSTOM_KEYBINDINGS,
            r matches Ok(t) ==> t.select_command() == self.select_command() && t.bindings().len()
                == self.bindings().len() + 1 && t.bindings().drop_last() == self.bindings() && t.bindings().last().binding@
                == keybind@ && t.bindings().last().command == command,
            r matches Ok(t) ==> t.commands() == self.commands().push(command),
            r matches Err(e) ==> e == Error::TooManyKeybindings,
            self.wf() ==> (r matches Ok(t) ==> t.wf()),
    {
        if self.keybinds.len() >= MAX_CUSTOM_KEYBINDINGS {
            return Err(Error::TooManyKeybindings);
        }
        let mut t = self;
        t.push_binding(keybind, command);
        Ok(t)
    }

    /// Registers `command` under `keybind` in a table that has room for it.
    pub fn push_binding(&mut self, keybind: &str, command: TCommand)
        requires
            old(self).bindings().len() < MAX_CUSTOM_KEYBINDINGS,
        ensures
            final(self).select_command() == old(self).select_command(),
            final(self).bindings().len() == old(self).bindings().len() + 1,
            final(self).bindings().drop_last() == old(self).bindings(),
            final(self).bindings().last().binding@ == keybind@,
            final(self).bindings().last().command == command,
            final(self).commands() == old(self).commands().push(command),
            final(self).wf(),
    {
        let ghost before = self.keybinds@;
        self.keybinds.push(Keybind { binding: keybind.to_owned(), command });
        assert(self.keybinds@.drop_last() =~= before);
        assert(self.commands() =~= before.map_values(|k: Keybind<TCommand>| k.command).push(command));
    }

    /// The custom keybindings in registration order.
    pub fn keybinds(&self) -> (r: &Vec<Keybind<TCommand>>)
        ensures
            r@ == self.bindings(),
    {
        &self.keybinds
    }

    /// The text that describes the table to the user: the default command on
    /// the first line, then the custom keybindings two to a row.
    pub fn format_message(&self) -> (r: String)
        ensures
            r@ == self.message(),
    {
        let mut message = String::new();
        proof {
            reveal_strlit("enter: ");
            reveal_strlit("\n");
            reveal_strlit(": ");
            reveal_strlit(" ");
        }
        message.append("enter: ");
        let label = self.select_command.label();
        message.append(label.as_str());
        message.append("\n");
        let ghost head = message@;
        let n = self.keybinds.len();
        let mut i: usize = 0;
        while i < n
            invariant
                n == self.keybinds@.len(),
                i <= n,
                head == seq!['e', 'n', 't', 'e', 'r', ':', ' '] + self.select_command.spec_label()
                    + seq!['\n'],
                message@ == head + keybind_cells(self.keybinds@, i as int),
                " "@ == seq![' '],
                ": "@ == seq![':', ' '],
                "\n"@ == seq!['\n'],
            decreases n - i,
        {
            let keybind = &self.keybinds[i];
            let mut text = keybind.binding.clone();
            text.append(": ");
            let label = keybind.command.label();
            text.append(label.as_str());
            assert(text@ == keybind_text(self.keybinds@[i as int]));
            let ghost cell = keybind_cell(i as int, text@);
            if i % 2 == 0 {
                if i != 0 {
                    message.append("\n");
                }
                let len = text.unicode_len();
                message.append(text.as_str());
                if len < MESSAGE_COLUMN_WIDTH {
                    append_repeated(&mut message, " ", MESSAGE_COLUMN_WIDTH - len);
                }
            } else {
                message.append(text.as_str());
            }
            assert(message@ =~= head + keybind_cells(self.keybinds@, i as int) + cell);
            i = i + 1;
        }
        message
    }

    /// The command that the selector's exit status reports; `None` stands for
    /// a status that the selector could not give (it was killed).
    pub fn exit_code_to_command(&self, code: Option<i32>) -> (r: Option<TCommand>)
        ensures
            r == command_for_code(self.select_command(), self.commands(), code),
    {
        match code {
            Some(code) => {
                if code == 0 {
                    return Some(self.select_command);
                }
                if FIRST_CUSTOM_EXIT_CODE <= code && code <= 28 {
                    let index = (code - FIRST_CUSTOM_EXIT_CODE) as usize;
                    if index < self.keybinds.len() {
                        return Some(self.keybinds[index].command);
                    }
                }
                None
            },
            None => None,
        }
    }
}

// ---------------------------------------------------------------------------
// Reading the selector's answer
// ---------------------------------------------------------------------------

/// Characters with the Unicode `White_Space` property.
pub open spec fn is_white_space(c: char) -> bool {
    let u = c as u32;
    (0x09 <= u <= 0x0d) || u == 0x20 || u == 0x85 || u == 0xa0 || u == 0x1680 || (0x2000 <= u
        <= 0x200a) || u == 0x2028 || u == 0x2029 || u == 0x202f || u == 0x205f || u == 0x3000
}

/// Whether `c` has the Unicode `White_Space` property.
pub fn white_space(c: char) -> (r: bool)
    ensures
        r == is_white_space(c),
{
    let u = c as u32;
    (0x09 <= u && u <= 0x0d) || u == 0x20 || u == 0x85 || u == 0xa0 || u == 0x1680 || (0x2000 <= u
        && u <= 0x200a) || u == 0x2028 || u == 0x2029 || u == 0x202f || u == 0x205f || u == 0x3000
}

/// The first position at or after `i` that holds no white space.
pub open spec fn lead_end(s: Seq<char>, i: int) -> int
    decreases s.len() - i,
{
    if i < 0 || i >= s.len() {
        s.len() as int
    } else if is_white_space(s[i]) {
        lead_end(s, i + 1)
    } else {
        i
    }
}

/// The end of `s.subrange(0, j)` without its trailing white space.
pub open spec fn trail_start(s: Seq<char>, j: int) -> int
    decreases j,
{
    if j <= 0 || j > s.len() {
        0
    } else if is_white_space(s[j - 1]) {
        trail_start(s, j - 1)
    } else {
        j
    }
}

/// `s` without leading and trailing white space.
pub open spec fn trimmed(s: Seq<char>) -> Seq<char> {
    let a = lead_end(s, 0);
    if a >= s.len() {
        seq![]
    } else {
        s.subrange(a, trail_start(s, s.len() as int))
    }
}

proof fn lemma_lead_end(s: Seq<char>, i: int)
    requires
        0 <= i <= s.len(),
    ensures
        i <= lead_end(s, i) <= s.len(),
        lead_end(s, i) < s.len() ==> !is_white_space(s[lead_end(s, i)]),
    decreases s.len() - i,
{
    if i < s.len() && is_white_space(s[i]) {
        lemma_lead_end(s, i + 1);
    }
}

/// `s` without leading and trailing white space.
pub fn trim_white_space(s: &str) -> (r: String)
    ensures
        r@ == trimmed(s@),
{
    let n = s.unicode_len();
    let mut a: usize = 0;
    while a < n && white_space(s.get_char(a))
        invariant
            n == s@.len(),
            a <= n,
            lead_end(s@, 0) == lead_end(s@, a as int),
        decreases n - a,
    {
        a = a + 1;
    }
    if a >= n {
        return String::new();
    }
    let mut b: usize = n;
    while b > a + 1 && white_space(s.get_char(b - 1))
        invariant
            n == s@.len(),
            a < n,
            !is_white_space(s@[a as int]),
            a < b <= n,
            trail_start(s@, n as int) == trail_start(s@, b as int),
        decreases b,
    {
        b = b - 1;
    }
    assert(!is_white_space(s@[b - 1]));
    copy_range(s, a, b)
}

/// Whether `c` is an ASCII decimal digit.
pub open spec fn is_digit(c: char) -> bool {
    '0' <= c <= '9'
}

/// The number that a sequence of decimal digits denotes.
pub open spec fn digits_value(s: Seq<char>) -> nat
    decreases s.len(),
{
    if s.len() == 0 {
        0
    } else {
        digits_value(s.drop_last()) * 10 + ((s.last() as u32) - ('0' as u32)) as nat
    }
}

/// The digits of a number in its text: all of it but an optional leading
/// `'+'`.
pub open spec fn unsigned_digits(s: Seq<char>) -> Seq<char> {
    if s.len() > 0 && s[0] == '+' {
        s.drop_first()
    } else {
        s
    }
}

/// The `usize` that a text denotes: an optional `'+'`, then one or more
/// decimal digits whose value fits.
pub open spec fn parsed_index(s: Seq<char>) -> Option<usize> {
    let d = unsigned_digits(s);
    if d.len() > 0 && (forall|i: int| 0 <= i < d.len() ==> is_digit(#[trigger] d[i]))
        && digits_value(d) <= usize::MAX {
        Some(digits_value(d) as usize)
    } else {
        None
    }
}

proof fn lemma_digits_value_grows(s: Seq<char>, k: int)
    requires
        0 <= k <= s.len(),
        forall|i: int| 0 <= i < s.len() ==> is_digit(#[trigger] s[i]),
    ensures
        digits_value(s.subrange(0, k)) <= digits_value(s),
    decreases s.len() - k,
{
    if k < s.len() {
        lemma_digits_value_grows(s, k + 1);
        assert(s.subrange(0, k + 1).drop_last() =~= s.subrange(0, k));
    } else {
        assert(s.subrange(0, k) =~= s);
    }
}

/// Reads a row index; `None` when the text is no number that fits.
pub fn parse_index(s: &str) -> (r: Option<usize>)
    ensures
        r == parsed_index(s@),
{
    let n = s.unicode_len();
    let mut i: usize = 0;
    if n > 0 && s.get_char(0) == '+' {
        i = 1;
    }
    let ghost d = unsigned_digits(s@);
    assert(d =~= s@.subrange(i as int, n as int));
    if i >= n {
        return None;
    }
    let start = i;
    let mut value: usize = 0;
    while i < n
        invariant
            n == s@.len(),
            start < n,
            d == unsigned_digits(s@),
            d == s@.subrange(start as int, n as int),
            start <= i <= n,
            forall|k: int| start <= k < i ==> is_digit(#[trigger] s@[k]),
            value == digits_value(s@.subrange(start as int, i as int)),
        decreases n - i,
    {
        let c = s.get_char(i);
        if !('0' <= c && c <= '9') {
            assert(d[i - start] == s@[i as int]);
            assert(!is_digit(d[i - start]));
            return None;
        }
        let digit = ((c as u32) - ('0' as u32)) as usize;
        assert(s@.subrange(start as int, i + 1).drop_last() =~= s@.subrange(start as int, i as int));
        assert(s@.subrange(start as int, i + 1).last() == c);
        assert(digits_value(s@.subrange(start as int, i + 1)) == value * 10 + digit);
        if value > (usize::MAX - digit) / 10 {
            proof {
                assert(value * 10 + digit > usize::MAX) by (nonlinear_arith)
                    requires
                        value > (usize::MAX - digit) / 10,
                        digit <= 9,
                ;
                if forall|k: int| 0 <= k < d.len() ==> is_digit(#[trigger] d[k]) {
                    assert(s@.subrange(start as int, i + 1) =~= d.subrange(0, i + 1 - start));
                    lemma_digits_value_grows(d, i + 1 - start);
                }
            }
            return None;
        }
        proof {
            assert(value * 10 + digit <= usize::MAX) by (nonlinear_arith)
                requires
                    value <= (usize::MAX - digit) / 10,
                    digit <= 9,
            ;
        }
        value = value * 10 + digit;
        i = i + 1;
    }
    assert(s@.subrange(start as int, n as int) =~= d);
    assert forall|k: int| 0 <= k < d.len() implies is_digit(#[trigger] d[k]) by {
        assert(d[k] == s@[start + k]);
    }
    Some(value)
}

/// What the user did in one round of the selector: the row that was chosen,
/// if any, and the command that the keypress stands for, if any.
#[derive(Debug)]
pub struct RofiSelectedItem<TCommand> {
    pub index: Option<usize>,
    pub command: Option<TCommand>,
}

/// The row that the selector's standard output designates: none for empty
/// output, else the number it holds.
pub open spec fn selected_row(out: Seq<char>) -> Option<Option<usize>> {
    let t = trimmed(out);
    if t.len() == 0 {
        Some(None)
    } else if let Some(i) = parsed_index(t) {
        Some(Some(i))
    } else {
        None
    }
}

/// Decodes one round of the selector over `item_count` presented rows, from
/// the bytes it printed and its exit status.
///
/// Fails with `EncodingError` when the output is not UTF-8, with
/// `InvalidSelectorOutput` when it is neither empty nor a row index, and with
/// `IndexOutOfRange` when the row was not presented.
pub fn select_item<TCommand: CommandLabel>(
    item_count: usize,
    stdout: Vec<u8>,
    exit_code: Option<i32>,
    custom_keybindings: &RofiCustomKeybindings<TCommand>,
) -> (r: Result<RofiSelectedItem<TCommand>, Error>)
    ensures
        !vstd::utf8::valid_utf8(stdout@) ==> r == Err::<RofiSelectedItem<TCommand>, Error>(
            Error::EncodingError,
        ),
        vstd::utf8::valid_utf8(stdout@) ==> {
            let out = vstd::utf8::decode_utf8(stdout@);
            match selected_row(out) {
                None => r == Err::<RofiSelectedItem<TCommand>, Error>(Error::InvalidSelectorOutput),
                Some(Some(i)) if i >= item_count => r == Err::<RofiSelectedItem<TCommand>, Error>(
                    Error::IndexOutOfRange,
                ),
                Some(row) => r matches Ok(sel) && sel.index == row && sel.command
                    == command_for_code(
                    custom_keybindings.select_command(),
                    custom_keybindings.commands(),
                    exit_code,
                ),
            }
        },
{
    let text = match decode_utf8_bytes(stdout) {
        Some(t) => t,
        None => {
            return Err(Error::EncodingError);
        },
    };
    let t = trim_white_space(text.as_str());
    let index = if t.unicode_len() == 0 {
        None
    } else {
        match parse_index(t.as_str()) {
            Some(i) => {
                if i >= item_count {
                    return Err(Error::IndexOutOfRange);
                }
                Some(i)
            },
            None => {
                return Err(Error::InvalidSelectorOutput);
            },
        }
    };
    let command = custom_keybindings.exit_code_to_command(exit_code);
    Ok(RofiSelectedItem { index, command })
}

// ---------------------------------------------------------------------------
// Invoking the selector
// ---------------------------------------------------------------------------

/// The arguments that register the first `n` custom keybindings: for the
/// `k`-th, `-kb-custom-<k + 1>` and its key chord.
pub open spec fn custom_keybinding_args<C>(ks: Seq<Keybind<C>>, n: int) -> Seq<Seq<char>>
    decreases n,
{
    if n <= 0 {
        seq![]
    } else {
        custom_keybinding_args(ks, n - 1) + seq![
            "-kb-custom-"@ + decimal(n as nat),
            ks[n - 1].binding@,
        ]
    }
}

/// The arguments of one selector round over the table `t`: a line menu,
/// case-insensitive, with endless scrolling, the row `selected_index`
/// highlighted, the matching method `matching`, the prompt `search`, the
/// chosen row printed as its index, the table's description as message, and
/// the custom keybindings.
pub open spec fn selector_args<C: CommandLabel>(
    matching: Seq<char>,
    selected_index: nat,
    t: RofiCustomKeybindings<C>,
) -> Seq<Seq<char>> {
    seq![
        "-dmenu"@,
        "-i"@,
        "-scroll-method"@,
        "1"@,
        "-selected-row"@,
        decimal(selected_index),
        "-matching"@,
        matching,
        "-p"@,
        "search"@,
        "-format"@,
        "i"@,
        "-mesg"@,
        t.message(),
    ] + custom_keybinding_args(t.bindings(), t.bindings().len() as int)
}

/// The command-line arguments for one round of the selector.
pub fn selector_arguments<TCommand: CommandLabel>(
    matching: &str,
    selected_index: usize,
    custom_keybindings: &RofiCustomKeybindings<TCommand>,
) -> (r: Vec<String>)
    ensures
        texts(r@) == selector_args(matching@, selected_index as nat, *custom_keybindings),
{
    let mut args: Vec<String> = Vec::new();
    args.push("-dmenu".to_owned());
    args.push("-i".to_owned());
    args.push("-scroll-method".to_owned());
    args.push("1".to_owned());
    args.push("-selected-row".to_owned());
    args.push(decimal_text(selected_index as u64));
    args.push("-matching".to_owned());
    args.push(matching.to_owned());
    args.push("-p".to_owned());
    args.push("search".to_owned());
    args.push("-format".to_owned());
    args.push("i".to_owned());
    args.push("-mesg".to_owned());
    args.push(custom_keybindings.format_message());
    let ghost head = texts(args@);
    let keybinds = custom_keybindings.keybinds();
    let n = keybinds.len();
    let mut k: usize = 0;
    while k < n
        invariant
            n == keybinds@.len(),
            keybinds@ == custom_keybindings.bindings(),
            k <= n,
            n <= MAX_CUSTOM_KEYBINDINGS || n == custom_keybindings.bindings().len(),
            texts(args@) == head + custom_keybinding_args(keybinds@, k as int),
        decreases n - k,
    {
        let mut flag = "-kb-custom-".to_owned();
        let number = decimal_text((k as u64) + 1);
        flag.append(number.as_str());
        let chord = keybinds[k].binding.clone();
        let ghost before = args@;
        args.push(flag);
        args.push(chord);
        assert(texts(args@) =~= texts(before) + seq![
            "-kb-custom-"@ + decimal((k + 1) as nat),
            keybinds@[k as int].binding@,
        ]);
        k = k + 1;
    }
    assert(head =~= seq![
        "-dmenu"@,
        "-i"@,
        "-scroll-method"@,
        "1"@,
        "-selected-row"@,
        decimal(selected_index as nat),
        "-matching"@,
        matching@,
        "-p"@,
        "search"@,
        "-format"@,
        "i"@,
        "-mesg"@,
        custom_keybindings.message(),
    ]);
    args
}

/// Candidate lines as the selector reads them: each followed by `'\n'`.
pub open spec fn selector_input_text(lines: Seq<Seq<char>>) -> Seq<char>
    decreases lines.len(),
{
    if lines.len() == 0 {
        seq![]
    } else {
        selector_input_text(lines.drop_last()) + lines.last() + seq!['\n']
    }
}

/// The text written to the selector for the candidate `lines`.
pub fn selector_input(lines: &Vec<String>) -> (r: String)
    ensures
        r@ == selector_input_text(texts(lines@)),
{
    let mut out = String::new();
    proof {
        reveal_strlit("\n");
    }
    let n = lines.len();
    let mut i: usize = 0;
    while i < n
        invariant
            n == lines@.len(),
            i <= n,
            "\n"@ == seq!['\n'],
            out@ == selector_input_text(texts(lines@).subrange(0, i as int)),
        decreases n - i,
    {
        let ghost sub = texts(lines@).subrange(0, i + 1);
        assert(sub.drop_last() =~= texts(lines@).subrange(0, i as int));
        out.append(lines[i].as_str());
        out.append("\n");
        i = i + 1;
    }
    assert(texts(lines@).subrange(0, n as int) =~= texts(lines@));
    out
}

} // verus!
