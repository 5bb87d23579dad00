use vstd::prelude::*;
use vstd::string::StrSliceExecFns;

verus! {

/// The twelve instructions of the language.
///
/// Each instruction carries a fixed numeric code, 0 through 11, given by
/// [`code_of`]. The numbering follows the declaration order below and is part
/// of the language: the self-eval instruction `mOO` reinterprets an arbitrary
/// cell value as an instruction through this exact mapping, so renumbering
/// would change the meaning of programs.
#[allow(non_camel_case_types)]
#[derive(Debug, Copy, Clone, PartialEq, Eq, Structural)]
pub enum Command {
    /// Code 0: jump backward to the matching `MOO`, then re-evaluate it.
    moo,
    /// Code 1: move the cursor one cell backward, clamped at 0.
    mOo,
    /// Code 2: move the cursor one cell forward, growing the tape by one
    /// zero cell when it steps past the current end.
    moO,
    /// Code 3: evaluate the current cell's value as an instruction.
    mOO,
    /// Code 4: if the current cell is 0, read a character code into it,
    /// else write the cell as a character.
    Moo,
    /// Code 5: decrement the current cell, clamped at 0.
    MOo,
    /// Code 6: increment the current cell, clamped at `u32::MAX`.
    MoO,
    /// Code 7: if the current cell is 0, jump forward past the matching `moo`.
    MOO,
    /// Code 8: set the current cell to 0.
    OOO,
    /// Code 9: swap with the register: copy the cell into the empty register,
    /// or move the occupied register back into the cell.
    MMM,
    /// Code 10: write the current cell as an integer.
    OOM,
    /// Code 11: read an integer into the current cell.
    oom,
}

/// The numeric code, 0 through 11, of an instruction.
pub open spec fn code_of(command: Command) -> u32 {
    match command {
        Command::moo => 0,
        Command::mOo => 1,
        Command::moO => 2,
        Command::mOO => 3,
        Command::Moo => 4,
        Command::MOo => 5,
        Command::MoO => 6,
        Command::MOO => 7,
        Command::OOO => 8,
        Command::MMM => 9,
        Command::OOM => 10,
        Command::oom => 11,
    }
}

/// The instruction whose code is `value`, or `None` when `value` is out of
/// range.
pub open spec fn command_of(value: u32) -> Option<Command> {
    if value == 0 {
        Some(Command::moo)
    } else if value == 1 {
        Some(Command::mOo)
    } else if value == 2 {
        Some(Command::moO)
    } else if value == 3 {
        Some(Command::mOO)
    } else if value == 4 {
        Some(Command::Moo)
    } else if value == 5 {
        Some(Command::MOo)
    } else if value == 6 {
        Some(Command::MoO)
    } else if value == 7 {
        Some(Command::MOO)
    } else if value == 8 {
        Some(Command::OOO)
    } else if value == 9 {
        Some(Command::MMM)
    } else if value == 10 {
        Some(Command::OOM)
    } else if value == 11 {
        Some(Command::oom)
    } else {
        None
    }
}

/// Decoding a code and reading a code back are inverses.
pub proof fn lemma_code_of_command_of(value: u32)
    ensures
        command_of(value) is Some <==> value < 12,
        command_of(value) is Some ==> code_of(command_of(value).unwrap()) == value,
{
}

impl Command {
    /// The numeric code, 0 through 11, of this instruction.
    pub fn code(&self) -> (r: u32)
        ensures
            r == code_of(*self),
    {
        match self {
            Command::moo => 0,
            Command::mOo => 1,
            Command::moO => 2,
            Command::mOO => 3,
            Command::Moo => 4,
            Command::MOo => 5,
            Command::MoO => 6,
            Command::MOO => 7,
            Command::OOO => 8,
            Command::MMM => 9,
            Command::OOM => 10,
            Command::oom => 11,
        }
    }

    /// The instruction whose numeric code is `value`, or `Err(())` when
    /// `value` is not a code.
    pub fn try_from(value: u32) -> (r: Result<Command, ()>)
        ensures
            command_of(value) is Some ==> r == Ok::<Command, ()>(command_of(value).unwrap()),
            command_of(value) is None ==> r == Err::<Command, ()>(()),
    {
        if value == 0 {
            Ok(Command::moo)
        } else if value == 1 {
            Ok(Command::mOo)
        } else if value == 2 {
            Ok(Command::moO)
        } else if value == 3 {
            Ok(Command::mOO)
        } else if value == 4 {
            Ok(Command::Moo)
        } else if value == 5 {
            Ok(Command::MOo)
        } else if value == 6 {
            Ok(Command::MoO)
        } else if value == 7 {
            Ok(Command::MOO)
        } else if value == 8 {
            Ok(Command::OOO)
        } else if value == 9 {
            Ok(Command::MMM)
        } else if value == 10 {
            Ok(Command::OOM)
        } else if value == 11 {
            Ok(Command::oom)
        } else {
            Err(())
        }
    }

    /// The instruction named by `token`, or `Err(())` when the token is not
    /// exactly one of the twelve case-sensitive opcode strings.
    pub fn from_str(token: &str) -> (r: Result<Command, ()>)
        ensures
            token_to_command(token@) is Some ==> r == Ok::<Command, ()>(
                token_to_command(token@).unwrap(),
            ),
            token_to_command(token@) is None ==> r == Err::<Command, ()>(()),
    {
        if token.unicode_len() != 3 {
            return Err(());
        }
        match glyph_command(token.get_char(0), token.get_char(1), token.get_char(2)) {
            Some(c) => Ok(c),
            None => Err(()),
        }
    }
}

/// Whether `c` separates tokens: the Unicode White_Space characters, the set
/// `str::split_whitespace` splits on.
pub open spec fn is_white(c: char) -> bool {
    let v = c as u32;
    ||| (0x09 <= v && v <= 0x0D)
    ||| v == 0x20
    ||| v == 0x85
    ||| v == 0xA0
    ||| v == 0x1680
    ||| (0x2000 <= v && v <= 0x200A)
    ||| v == 0x2028
    ||| v == 0x2029
    ||| v == 0x202F
    ||| v == 0x205F
    ||| v == 0x3000
}

/// The instruction named by three glyphs, or `None`.
pub open spec fn glyphs_to_command(a: char, b: char, c: char) -> Option<Command> {
    if a == 'm' && b == 'o' && c == 'o' {
        Some(Command::moo)
    } else if a == 'm' && b == 'O' && c == 'o' {
        Some(Command::mOo)
    } else if a == 'm' && b == 'o' && c == 'O' {
        Some(Command::moO)
    } else if a == 'm' && b == 'O' && c == 'O' {
        Some(Command::mOO)
    } else if a == 'M' && b == 'o' && c == 'o' {
        Some(Command::Moo)
    } else if a == 'M' && b == 'O' && c == 'o' {
        Some(Command::MOo)
    } else if a == 'M' && b == 'o' && c == 'O' {
        Some(Command::MoO)
    } else if a == 'M' && b == 'O' && c == 'O' {
        Some(Command::MOO)
    } else if a == 'O' && b == 'O' && c == 'O' {
        Some(Command::OOO)
    } else if a == 'M' && b == 'M' && c == 'M' {
        Some(Command::MMM)
    } else if a == 'O' && b == 'O' && c == 'M' {
        Some(Command::OOM)
    } else if a == 'o' && b == 'o' && c == 'm' {
        Some(Command::oom)
    } else {
        None
    }
}

/// The instruction a token names, or `None`: a token matches exactly one of
/// the twelve case-sensitive three-glyph opcode strings, or nothing.
pub open spec fn token_to_command(token: Seq<char>) -> Option<Command> {
    if token.len() == 3 {
        glyphs_to_command(token[0], token[1], token[2])
    } else {
        None
    }
}

/// The instructions a token contributes to a program: one when it names an
/// instruction, none otherwise — unknown tokens are skipped, never an error.
pub open spec fn commands_of_token(token: Seq<char>) -> Seq<Command> {
    match token_to_command(token) {
        Some(c) => seq![c],
        None => Seq::empty(),
    }
}

/// Tokenizing `text` from position `i` on, with `token` the partial token
/// read so far and `acc` the instructions already produced: the instruction
/// sequence of the whole text. Whitespace ends the current token; the text's
/// end ends the last one.
pub open spec fn scan_text(
    text: Seq<char>,
    i: int,
    token: Seq<char>,
    acc: Seq<Command>,
) -> Seq<Command>
    decreases text.len() - i,
{
    if i < 0 || i >= text.len() {
        acc + commands_of_token(token)
    } else if is_white(text[i]) {
        scan_text(text, i + 1, Seq::empty(), acc + commands_of_token(token))
    } else {
        scan_text(text, i + 1, token.push(text[i]), acc)
    }
}

/// The instructions of a program text: the text is split on whitespace, each
/// token is matched against the twelve opcode strings, and tokens that match
/// nothing are dropped.
pub open spec fn parse_spec(text: Seq<char>) -> Seq<Command> {
    scan_text(text, 0, Seq::empty(), Seq::empty())
}

/// Whether `c` separates tokens.
fn is_whitespace_char(c: char) -> (r: bool)
    ensures
        r == is_white(c),
{
    let v = c as u32;
    (0x09 <= v && v <= 0x0D) || v == 0x20 || v == 0x85 || v == 0xA0 || v == 0x1680 || (0x2000
        <= v && v <= 0x200A) || v == 0x2028 || v == 0x2029 || v == 0x202F || v == 0x205F || v
        == 0x3000
}

/// The instruction named by three glyphs, or `None`.
fn glyph_command(a: char, b: char, c: char) -> (r: Option<Command>)
    ensures
        r == glyphs_to_command(a, b, c),
{
    if a == 'm' && b == 'o' && c == 'o' {
        Some(Command::moo)
    } else if a == 'm' && b == 'O' && c == 'o' {
        Some(Command::mOo)
    } else if a == 'm' && b == 'o' && c == 'O' {
        Some(Command::moO)
    } else if a == 'm' && b == 'O' && c == 'O' {
        Some(Command::mOO)
    } else if a == 'M' && b == 'o' && c == 'o' {
        Some(Command::Moo)
    } else if a == 'M' && b == 'O' && c == 'o' {
        Some(Command::MOo)
    } else if a == 'M' && b == 'o' && c == 'O' {
        Some(Command::MoO)
    } else if a == 'M' && b == 'O' && c == 'O' {
        Some(Command::MOO)
    } else if a == 'O' && b == 'O' && c == 'O' {
        Some(Command::OOO)
    } else if a == 'M' && b == 'M' && c == 'M' {
        Some(Command::MMM)
    } else if a == 'O' && b == 'O' && c == 'M' {
        Some(Command::OOM)
    } else if a == 'o' && b == 'o' && c == 'm' {
        Some(Command::oom)
    } else {
        None
    }
}

/// Append to `out` what `token` contributes: the instruction it names, or
/// nothing.
fn flush_token(out: &mut Vec<Command>, token: &Vec<char>)
    ensures
        final(out)@ == old(out)@ + commands_of_token(token@),
{
    if token.len() == 3 {
        match glyph_command(token[0], token[1], token[2]) {
            Some(c) => {
                out.push(c);
                proof {
                    assert(out@ =~= old(out)@ + commands_of_token(token@));
                }
            },
            None => {
                proof {
                    assert(out@ =~= old(out)@ + commands_of_token(token@));
                }
            },
        }
    } else {
        proof {
            assert(out@ =~= old(out)@ + commands_of_token(token@));
        }
    }
}

/// An immutable, ordered sequence of instructions, indexed from zero.
#[derive(Debug, Clone)]
pub struct Program {
    commands: Vec<Command>,
}

impl View for Program {
    type V = Seq<Command>;

    closed spec fn view(&self) -> Seq<Command> {
        self.commands@
    }
}

impl Program {
    /// A program holding exactly the given instructions.
    pub fn new(commands: Vec<Command>) -> (r: Program)
        ensures
            r@ == commands@,
    {
        Program { commands }
    }

    /// The program a text parses to: the text is split on whitespace, each
    /// token matching an opcode string becomes that instruction, and every
    /// other token is silently dropped — noise words are not an error.
    pub fn parse(commands: &str) -> (r: Program)
        ensures
            r@ == parse_spec(commands@),
    {
        let n = commands.unicode_len();
        let mut out: Vec<Command> = Vec::new();
        let mut token: Vec<char> = Vec::new();
        let mut i: usize = 0;
        while i < n
            invariant
                n == commands@.len(),
                i <= n,
                parse_spec(commands@) == scan_text(commands@, i as int, token@, out@),
            decreases n - i,
        {
            let ghost token0 = token@;
            let ghost out0 = out@;
            let c = commands.get_char(i);
            if is_whitespace_char(c) {
                flush_token(&mut out, &token);
                token.clear();
                proof {
                    assert(token@ =~= Seq::<char>::empty());
                    assert(scan_text(commands@, i as int, token0, out0) == scan_text(
                        commands@,
                        i + 1,
                        token@,
                        out@,
                    ));
                }
            } else {
                token.push(c);
                proof {
                    assert(token@ == token0.push(commands@[i as int]));
                    assert(scan_text(commands@, i as int, token0, out0) == scan_text(
                        commands@,
                        i + 1,
                        token@,
                        out@,
                    ));
                }
            }
            i = i + 1;
        }
        flush_token(&mut out, &token);
        Program { commands: out }
    }

    /// The instructions as a slice.
    pub fn commands(&self) -> (r: &[Command])
        ensures
            r@ == self@,
    {
        self.commands.as_slice()
    }

    /// The number of instructions.
    pub fn len(&self) -> (r: usize)
        ensures
            r == self@.len(),
    {
        self.commands.len()
    }

    /// The instruction at position `i`.
    pub fn get(&self, i: usize) -> (r: Command)
        requires
            i < self@.len(),
        ensures
            r == self@[i as int],
    {
        self.commands[i]
    }
}

} // verus!
