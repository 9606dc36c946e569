//! Opening a file in the editor that the user has chosen.
use vstd::prelude::*;

use crate::text;
use crate::themed;
use crate::themed::{Role, ThemedLine, ThemedSpan, ThemedSpanView};

verus! {

// ---------------------------------------------------------------------------
// Splitting a command line
// ---------------------------------------------------------------------------
/// Whether a character stands in quotes.
#[derive(Clone, Copy, PartialEq, Eq, Structural, Debug)]
pub enum Quote {
    Outside,
    Single,
    Double,
}

/// Whether a character stands between two arguments.
pub open spec fn is_gap(c: char) -> bool {
    c == ' ' || c == '\t' || c == '\n' || c == '\r'
}

/// The arguments that were read, and the one that is being read.
#[verifier::ext_equal]
pub struct Words {
    pub args: Seq<Seq<char>>,
    pub current: Seq<char>,
    pub quote: Quote,
}

impl Words {
    pub open spec fn start() -> Words {
        Words { args: Seq::empty(), current: Seq::empty(), quote: Quote::Outside }
    }

    /// One more character of the argument.
    pub open spec fn with(self, c: char) -> Words {
        Words { current: self.current.push(c), ..self }
    }

    pub open spec fn quoted(self, quote: Quote) -> Words {
        Words { quote, ..self }
    }

    /// The end of the argument. An argument without characters is none.
    pub open spec fn ended(self) -> Words {
        if self.current.len() > 0 {
            Words { args: self.args.push(self.current), current: Seq::empty(), ..self }
        } else {
            self
        }
    }

    /// What comes of reading a text. Single quotes keep everything up to the
    /// next one. A backslash keeps the next character, also in double quotes;
    /// at the very end it is dropped. Gaps outside of quotes end an argument.
    pub open spec fn read(self, s: Seq<char>) -> Words
        decreases s.len(),
    {
        if s.len() == 0 {
            self
        } else {
            let c = s[0];
            let rest = s.drop_first();
            if self.quote == Quote::Single {
                if c == '\'' {
                    self.quoted(Quote::Outside).read(rest)
                } else {
                    self.with(c).read(rest)
                }
            } else if c == '\\' {
                if rest.len() > 0 {
                    self.with(rest[0]).read(rest.drop_first())
                } else {
                    self
                }
            } else if self.quote == Quote::Double {
                if c == '"' {
                    self.quoted(Quote::Outside).read(rest)
                } else {
                    self.with(c).read(rest)
                }
            } else if c == '\'' {
                self.quoted(Quote::Single).read(rest)
            } else if c == '"' {
                self.quoted(Quote::Double).read(rest)
            } else if is_gap(c) {
                self.ended().read(rest)
            } else {
                self.with(c).read(rest)
            }
        }
    }
}

/// The arguments of a command line.
pub open spec fn args_of(input: Seq<char>) -> Seq<Seq<char>> {
    Words::start().read(input).ended().args
}

/// Parse shell-style arguments, handling quoted strings
pub fn parse_args(input: &str) -> (r: Vec<String>)
    ensures
        text::views(r@) == args_of(input@),
{
    let chars = text::chars_of(input);
    let mut args: Vec<String> = Vec::new();
    let mut current = String::new();
    let mut quote = Quote::Outside;
    let mut i: usize = 0;
    let ghost whole = Words::start().read(chars@);
    proof {
        assert(chars@.skip(0) =~= chars@);
        assert(text::views(args@) =~= Seq::<Seq<char>>::empty());
        assert(current@ =~= Seq::<char>::empty());
    }
    while i < chars.len()
        invariant
            i <= chars@.len(),
            (Words { args: text::views(args@), current: current@, quote }).read(
                chars@.skip(i as int),
            ) == whole,
        decreases chars.len() - i,
    {
        let c = chars[i];
        let ghost state = Words { args: text::views(args@), current: current@, quote };
        let ghost rest = chars@.skip(i as int);
        proof {
            assert(rest[0] == c);
            assert(rest.drop_first() =~= chars@.skip(i + 1));
            if i + 1 < chars@.len() {
                assert(chars@.skip(i + 1).drop_first() =~= chars@.skip(i + 2));
            }
        }
        if quote == Quote::Single {
            if c == '\'' {
                quote = Quote::Outside;
            } else {
                current.push(c);
            }
        } else if c == '\\' {
            if i + 1 < chars.len() {
                i = i + 1;
                current.push(chars[i]);
            }
        } else if quote == Quote::Double {
            if c == '"' {
                quote = Quote::Outside;
            } else {
                current.push(c);
            }
        } else if c == '\'' {
            quote = Quote::Single;
        } else if c == '"' {
            quote = Quote::Double;
        } else if c == ' ' || c == '\t' || c == '\n' || c == '\r' {
            if !current.as_str().is_empty() {
                let mut word = String::new();
                std::mem::swap(&mut word, &mut current);
                proof {
                    text::lemma_views_push(args@, word);
                    assert(current@ =~= Seq::<char>::empty());
                }
                args.push(word);
            }
        } else {
            current.push(c);
        }
        i = i + 1;
    }
    proof {
        assert(chars@.skip(i as int).len() == 0);
    }
    if !current.as_str().is_empty() {
        proof {
            text::lemma_views_push(args@, current);
        }
        args.push(current);
    }
    args
}

// ---------------------------------------------------------------------------
// The editor
// ---------------------------------------------------------------------------
/// The editor that is used: the first of the variable for git, git's own
/// setting and the general variable that is set, or `vi`.
pub open spec fn editor_of(
    git_editor: Option<Seq<char>>,
    core_editor: Option<Seq<char>>,
    editor: Option<Seq<char>>,
) -> Seq<char> {
    match git_editor {
        Some(e) => e,
        None => match core_editor {
            Some(e) => e,
            None => match editor {
                Some(e) => e,
                None => "vi"@,
            },
        },
    }
}

/// The editor that is used.
pub fn choose_editor(
    git_editor: Option<String>,
    core_editor: Option<String>,
    editor: Option<String>,
) -> (r: String)
    ensures
        r@ == editor_of(
            text::opt_text(git_editor),
            text::opt_text(core_editor),
            text::opt_text(editor),
        ),
{
    match git_editor {
        Some(e) => e,
        None => match core_editor {
            Some(e) => e,
            None => match editor {
                Some(e) => e,
                None => "vi".to_owned(),
            },
        },
    }
}

/// A program and its arguments.
pub struct EditorCommand {
    pub program: String,
    pub args: Vec<String>,
}

/// Why no editor can be run.
#[derive(Clone, Copy, PartialEq, Eq, Structural, Debug)]
pub enum EditorError {
    /// What is set as editor holds no program.
    Empty,
}

impl EditorError {
    /// What the user is told.
    pub fn text(self) -> (r: String)
        ensures
            r@ == "editor env variable found empty: GIT_EDITOR or EDITOR"@,
    {
        "editor env variable found empty: GIT_EDITOR or EDITOR".to_owned()
    }
}

/// The note that is shown while the editor is open.
pub struct ExternalEditorPopup {
    pub visible: bool,
}

/// The width and height of the note.
pub const EDITOR_POPUP_WIDTH: u16 = 25;

pub const EDITOR_POPUP_HEIGHT: u16 = 3;

impl ExternalEditorPopup {
    pub fn new() -> (r: ExternalEditorPopup)
        ensures
            !r.visible,
    {
        ExternalEditorPopup { visible: false }
    }

    /// The command that opens the file at `path`: the first argument of the
    /// editor's command line is the program, the others and the path are its
    /// arguments.
    pub fn open_file_in_editor(
        git_editor: Option<String>,
        core_editor: Option<String>,
        editor: Option<String>,
        path: &str,
    ) -> (r: Result<EditorCommand, EditorError>)
        ensures
            ({
                let words = args_of(
                    editor_of(
                        text::opt_text(git_editor),
                        text::opt_text(core_editor),
                        text::opt_text(editor),
                    ),
                );
                match r {
                    Ok(command) => words.len() > 0 && command.program@ == words[0] && text::views(
                        command.args@,
                    ) == words.drop_first().push(path@),
                    Err(e) => words.len() == 0 && e == EditorError::Empty,
                }
            }),
    {
        let editor = choose_editor(git_editor, core_editor, editor);
        let words = parse_args(editor.as_str());
        if words.len() == 0 {
            return Err(EditorError::Empty);
        }
        let ghost all = text::views(words@);
        let program = words[0].clone();
        let mut args: Vec<String> = Vec::new();
        let mut i: usize = 1;
        while i < words.len()
            invariant
                1 <= i <= words.len(),
                all == text::views(words@),
                text::views(args@) == all.subrange(1, i as int),
            decreases words.len() - i,
        {
            let word = words[i].clone();
            proof {
                text::lemma_views_push(args@, word);
                assert(all.subrange(1, i + 1) =~= all.subrange(1, i as int).push(all[i as int]));
            }
            args.push(word);
            i = i + 1;
        }
        let path = path.to_owned();
        proof {
            assert(all.subrange(1, all.len() as int) =~= all.drop_first());
            text::lemma_views_push(args@, path);
        }
        args.push(path);
        Ok(EditorCommand { program, args })
    }

    /// The pieces of the note: its lines, one after the other.
    pub open spec fn note(message: Seq<char>) -> Seq<ThemedSpanView> {
        let lines = text::split_of(message, '\n');
        Seq::new(lines.len(), |i: int| themed::piece(lines[i], Role::Raw))
    }

    /// What is shown while the editor is open, if anything.
    pub fn draw(&self, message: &str) -> (r: Option<ThemedLine>)
        ensures
            match r {
                Some(line) => self.visible && line@ == ExternalEditorPopup::note(message@),
                None => !self.visible,
            },
    {
        if !self.visible {
            return None;
        }
        let pieces = text::split(message, '\n');
        let ghost note = ExternalEditorPopup::note(message@);
        let mut spans: Vec<ThemedSpan> = Vec::new();
        let mut i: usize = 0;
        while i < pieces.len()
            invariant
                i <= pieces.len(),
                text::views(pieces@) == text::split_of(message@, '\n'),
                note == ExternalEditorPopup::note(message@),
                text::views(spans@) == note.take(i as int),
            decreases pieces.len() - i,
        {
            let span = ThemedSpan::new(pieces[i].clone(), Role::Raw);
            proof {
                text::lemma_views_push(spans@, span);
                assert(text::views(pieces@)[i as int] == pieces@[i as int]@);
                assert(note.take(i + 1) =~= note.take(i as int).push(span@));
            }
            spans.push(span);
            i = i + 1;
        }
        assert(text::views(pieces@).len() == note.len());
        assert(note.take(note.len() as int) =~= note);
        Some(ThemedLine { spans })
    }

    /// Whether all other commands are taken away.
    pub fn clears_commands(&self, force_all: bool) -> (r: bool)
        ensures
            r == (self.visible && !force_all),
    {
        self.visible && !force_all
    }

    /// Whether an event is used up.
    pub fn event(&self) -> (r: bool)
        ensures
            r == self.visible,
    {
        self.visible
    }

    pub fn is_visible(&self) -> (r: bool)
        ensures
            r == self.visible,
    {
        self.visible
    }

    pub fn close(&mut self)
        ensures
            !final(self).visible,
    {
        self.visible = false;
    }

    pub fn show(&mut self)
        ensures
            final(self).visible,
    {
        self.visible = true;
    }
}

// ---------------------------------------------------------------------------
// Laws
// ---------------------------------------------------------------------------
pub open spec fn no_empty(args: Seq<Seq<char>>) -> bool {
    forall|i: int| 0 <= i < args.len() ==> (#[trigger] args[i]).len() > 0
}

proof fn lemma_read_no_empty(words: Words, s: Seq<char>)
    requires
        no_empty(words.args),
    ensures
        no_empty(words.read(s).args),
    decreases s.len(),
{
    if s.len() > 0 {
        let c = s[0];
        let rest = s.drop_first();
        if words.quote == Quote::Single {
            if c == '\'' {
                lemma_read_no_empty(words.quoted(Quote::Outside), rest);
            } else {
                lemma_read_no_empty(words.with(c), rest);
            }
        } else if c == '\\' {
            if rest.len() > 0 {
                lemma_read_no_empty(words.with(rest[0]), rest.drop_first());
            }
        } else if words.quote == Quote::Double {
            if c == '"' {
                lemma_read_no_empty(words.quoted(Quote::Outside), rest);
            } else {
                lemma_read_no_empty(words.with(c), rest);
            }
        } else if c == '\'' {
            lemma_read_no_empty(words.quoted(Quote::Single), rest);
        } else if c == '"' {
            lemma_read_no_empty(words.quoted(Quote::Double), rest);
        } else if is_gap(c) {
            lemma_read_no_empty(words.ended(), rest);
        } else {
            lemma_read_no_empty(words.with(c), rest);
        }
    }
}

/// No argument is empty.
pub proof fn law_no_empty_argument(input: Seq<char>)
    ensures
        no_empty(args_of(input)),
{
    lemma_read_no_empty(Words::start(), input);
}

/// Whether a character stands for itself outside of quotes.
pub open spec fn is_plain(c: char) -> bool {
    c != '\'' && c != '"' && c != '\\' && !is_gap(c)
}

pub open spec fn all_plain(s: Seq<char>) -> bool {
    forall|i: int| 0 <= i < s.len() ==> is_plain(#[trigger] s[i])
}

proof fn lemma_read_plain(words: Words, s: Seq<char>, rest: Seq<char>)
    requires
        words.quote == Quote::Outside,
        all_plain(s),
    ensures
        words.read(s + rest) == (Words { current: words.current + s, ..words }).read(rest),
    decreases s.len(),
{
    if s.len() == 0 {
        assert(s + rest =~= rest);
        assert(words.current + s =~= words.current);
    } else {
        assert(is_plain(s[0]));
        assert((s + rest)[0] == s[0]);
        assert((s + rest).drop_first() =~= s.drop_first() + rest);
        assert forall|i: int| 0 <= i < s.len() - 1 implies is_plain(
            #[trigger] s.drop_first()[i],
        ) by {
            assert(s.drop_first()[i] == s[i + 1]);
        }
        lemma_read_plain(words.with(s[0]), s.drop_first(), rest);
        assert(words.current.push(s[0]) + s.drop_first() =~= words.current + s);
    }
}

/// Plain words with a gap between them are the arguments.
pub proof fn law_plain_words(a: Seq<char>, gap: char, b: Seq<char>)
    requires
        a.len() > 0,
        b.len() > 0,
        all_plain(a),
        all_plain(b),
        is_gap(gap),
    ensures
        args_of(a) == seq![a],
        args_of(a.push(gap) + b) == seq![a, b],
{
    let start = Words::start();
    let empty = Seq::<char>::empty();
    lemma_read_plain(start, a, empty);
    assert(a + empty =~= a);
    assert(start.current + a =~= a);
    let one = Words { current: a, ..start };
    assert(one.read(empty) == one);
    assert(start.args.push(a) =~= seq![a]);
    let tail = seq![gap] + b;
    assert(a.push(gap) + b =~= a + tail);
    lemma_read_plain(start, a, tail);
    assert(tail[0] == gap);
    assert(tail.drop_first() =~= b);
    let ended = one.ended();
    lemma_read_plain(ended, b, empty);
    assert(b + empty =~= b);
    assert(ended.current + b =~= b);
    let two = Words { current: b, ..ended };
    assert(two.read(empty) == two);
    assert(ended.args.push(b) =~= seq![a, b]);
}

proof fn lemma_read_single(words: Words, s: Seq<char>, rest: Seq<char>)
    requires
        words.quote == Quote::Single,
        forall|i: int| 0 <= i < s.len() ==> s[i] != '\'',
    ensures
        words.read(s + rest) == (Words { current: words.current + s, ..words }).read(rest),
    decreases s.len(),
{
    if s.len() == 0 {
        assert(s + rest =~= rest);
        assert(words.current + s =~= words.current);
    } else {
        assert((s + rest)[0] == s[0]);
        assert((s + rest).drop_first() =~= s.drop_first() + rest);
        lemma_read_single(words.with(s[0]), s.drop_first(), rest);
        assert(words.current.push(s[0]) + s.drop_first() =~= words.current + s);
    }
}

/// A text in single quotes is one argument, whatever it holds but a single
/// quote.
pub proof fn law_single_quotes_keep_text(s: Seq<char>)
    requires
        s.len() > 0,
        forall|i: int| 0 <= i < s.len() ==> s[i] != '\'',
    ensures
        args_of(seq!['\''] + s + seq!['\'']) == seq![s],
{
    let start = Words::start();
    let input = seq!['\''] + s + seq!['\''];
    assert(input[0] == '\'');
    assert(input.drop_first() =~= s + seq!['\'']);
    let inside = start.quoted(Quote::Single);
    lemma_read_single(inside, s, seq!['\'']);
    assert(inside.current + s =~= s);
    let full = Words { current: s, ..inside };
    assert(seq!['\''].drop_first() =~= Seq::<char>::empty());
    let after = full.quoted(Quote::Outside);
    assert(after.read(Seq::<char>::empty()) == after);
    assert(full.read(seq!['\'']) == after);
    assert(after.args.push(s) =~= seq![s]);
}

/// Whether the last character of a text, read from within `quote`, is no
/// backslash that keeps what comes behind the text.
pub open spec fn no_hanging(quote: Quote, s: Seq<char>) -> bool
    decreases s.len(),
{
    if s.len() == 0 {
        true
    } else {
        let c = s[0];
        let rest = s.drop_first();
        if quote == Quote::Single {
            no_hanging(
                if c == '\'' {
                    Quote::Outside
                } else {
                    quote
                },
                rest,
            )
        } else if c == '\\' {
            rest.len() > 0 && no_hanging(quote, rest.drop_first())
        } else if quote == Quote::Double {
            no_hanging(
                if c == '"' {
                    Quote::Outside
                } else {
                    quote
                },
                rest,
            )
        } else if c == '\'' {
            no_hanging(Quote::Single, rest)
        } else if c == '"' {
            no_hanging(Quote::Double, rest)
        } else {
            no_hanging(quote, rest)
        }
    }
}

/// Whether a command line leaves no quote open and no backslash hanging.
pub open spec fn is_closed(s: Seq<char>) -> bool {
    no_hanging(Quote::Outside, s) && Words::start().read(s).quote == Quote::Outside
}

/// Two texts are read one after the other, and a backslash hangs behind both
/// where it does behind the second.
proof fn lemma_read_in_turn(words: Words, a: Seq<char>, b: Seq<char>)
    requires
        no_hanging(words.quote, a),
    ensures
        words.read(a + b) == words.read(a).read(b),
        no_hanging(words.quote, a + b) == no_hanging(words.read(a).quote, b),
    decreases a.len(),
{
    if a.len() == 0 {
        assert(a + b =~= b);
    } else {
        let c = a[0];
        let rest = a.drop_first();
        assert((a + b)[0] == c);
        assert((a + b).drop_first() =~= rest + b);
        if words.quote == Quote::Single {
            if c == '\'' {
                lemma_read_in_turn(words.quoted(Quote::Outside), rest, b);
            } else {
                lemma_read_in_turn(words.with(c), rest, b);
            }
        } else if c == '\\' {
            assert((rest + b)[0] == rest[0]);
            assert((rest + b).drop_first() =~= rest.drop_first() + b);
            lemma_read_in_turn(words.with(rest[0]), rest.drop_first(), b);
        } else if words.quote == Quote::Double {
            if c == '"' {
                lemma_read_in_turn(words.quoted(Quote::Outside), rest, b);
            } else {
                lemma_read_in_turn(words.with(c), rest, b);
            }
        } else if c == '\'' {
            lemma_read_in_turn(words.quoted(Quote::Single), rest, b);
        } else if c == '"' {
            lemma_read_in_turn(words.quoted(Quote::Double), rest, b);
        } else if is_gap(c) {
            lemma_read_in_turn(words.ended(), rest, b);
        } else {
            lemma_read_in_turn(words.with(c), rest, b);
        }
    }
}

/// The arguments with others in front of them.
spec fn behind(words: Words, front: Seq<Seq<char>>) -> Words {
    Words { args: front + words.args, ..words }
}

/// Arguments that were read before make no difference to those that follow.
proof fn lemma_read_behind(words: Words, front: Seq<Seq<char>>, s: Seq<char>)
    ensures
        behind(words, front).read(s) == behind(words.read(s), front),
    decreases s.len(),
{
    if s.len() > 0 {
        let c = s[0];
        let rest = s.drop_first();
        let back = behind(words, front);
        if words.quote == Quote::Single {
            if c == '\'' {
                assert(back.quoted(Quote::Outside) == behind(words.quoted(Quote::Outside), front));
                lemma_read_behind(words.quoted(Quote::Outside), front, rest);
            } else {
                assert(back.with(c) == behind(words.with(c), front));
                lemma_read_behind(words.with(c), front, rest);
            }
        } else if c == '\\' {
            if rest.len() > 0 {
                assert(back.with(rest[0]) == behind(words.with(rest[0]), front));
                lemma_read_behind(words.with(rest[0]), front, rest.drop_first());
            }
        } else if words.quote == Quote::Double {
            if c == '"' {
                assert(back.quoted(Quote::Outside) == behind(words.quoted(Quote::Outside), front));
                lemma_read_behind(words.quoted(Quote::Outside), front, rest);
            } else {
                assert(back.with(c) == behind(words.with(c), front));
                lemma_read_behind(words.with(c), front, rest);
            }
        } else if c == '\'' {
            assert(back.quoted(Quote::Single) == behind(words.quoted(Quote::Single), front));
            lemma_read_behind(words.quoted(Quote::Single), front, rest);
        } else if c == '"' {
            assert(back.quoted(Quote::Double) == behind(words.quoted(Quote::Double), front));
            lemma_read_behind(words.quoted(Quote::Double), front, rest);
        } else if is_gap(c) {
            lemma_ended_behind(words, front);
            lemma_read_behind(words.ended(), front, rest);
        } else {
            assert(back.with(c) == behind(words.with(c), front));
            lemma_read_behind(words.with(c), front, rest);
        }
    }
}

proof fn lemma_ended_behind(words: Words, front: Seq<Seq<char>>)
    ensures
        behind(words, front).ended() == behind(words.ended(), front),
{
    assert((front + words.args).push(words.current) =~= front + words.args.push(words.current));
    assert(behind(words, front).ended() =~= behind(words.ended(), front));
}

/// The arguments of two command lines with a gap between them are those of the
/// first and then those of the second, where the first leaves no quote open and
/// no backslash hanging; and the whole is closed where the second is.
pub proof fn law_lists_join(a: Seq<char>, gap: char, b: Seq<char>)
    requires
        is_closed(a),
        is_gap(gap),
    ensures
        args_of(a.push(gap) + b) == args_of(a) + args_of(b),
        is_closed(a.push(gap) + b) == is_closed(b),
{
    let start = Words::start();
    let tail = seq![gap] + b;
    assert(a.push(gap) + b =~= a + tail);
    lemma_read_in_turn(start, a, tail);
    let first = start.read(a);
    let next = first.ended();
    assert(tail[0] == gap);
    assert(tail.drop_first() =~= b);
    assert(next == behind(start, args_of(a))) by {
        assert(args_of(a) + start.args =~= args_of(a));
        assert(next.current =~= start.current);
    }
    lemma_read_behind(start, args_of(a), b);
    lemma_ended_behind(start.read(b), args_of(a));
}

/// A text in single quotes.
pub open spec fn in_single_quotes(s: Seq<char>) -> Seq<char> {
    seq!['\''] + s + seq!['\'']
}

/// Arguments in single quotes, one after the other with spaces between them.
pub open spec fn quoted_list(args: Seq<Seq<char>>) -> Seq<char>
    decreases args.len(),
{
    if args.len() == 0 {
        Seq::empty()
    } else if args.len() == 1 {
        in_single_quotes(args[0])
    } else {
        quoted_list(args.drop_last()).push(' ') + in_single_quotes(args.last())
    }
}

proof fn lemma_no_hanging_single(s: Seq<char>, rest: Seq<char>)
    requires
        !s.contains('\''),
    ensures
        no_hanging(Quote::Single, s + rest) == no_hanging(Quote::Single, rest),
    decreases s.len(),
{
    if s.len() == 0 {
        assert(s + rest =~= rest);
    } else {
        assert(s.contains(s[0]));
        assert((s + rest)[0] == s[0]);
        assert((s + rest).drop_first() =~= s.drop_first() + rest);
        if s.drop_first().contains('\'') {
            let i = choose|i: int| 0 <= i < s.len() - 1 && s.drop_first()[i] == '\'';
            assert(s[i + 1] == '\'');
        }
        lemma_no_hanging_single(s.drop_first(), rest);
    }
}

/// A text in single quotes is closed.
proof fn lemma_quotes_closed(s: Seq<char>)
    requires
        !s.contains('\''),
    ensures
        is_closed(in_single_quotes(s)),
{
    let input = in_single_quotes(s);
    let end = seq!['\''];
    let empty = Seq::<char>::empty();
    assert(input[0] == '\'');
    assert(input.drop_first() =~= s + end);
    assert(end.drop_first() =~= empty);
    lemma_no_hanging_single(s, end);
    assert(no_hanging(Quote::Outside, empty));
    assert(no_hanging(Quote::Single, end));
    assert forall|i: int| 0 <= i < s.len() implies s[i] != '\'' by {
        assert(s.contains(s[i]));
    }
    let inside = Words::start().quoted(Quote::Single);
    lemma_read_single(inside, s, end);
    let full = Words { current: inside.current + s, ..inside };
    let after = full.quoted(Quote::Outside);
    assert(after.read(empty) == after);
    assert(full.read(end) == after);
}

/// Arguments that are put into single quotes are read back, whatever they hold
/// but a single quote, where none is empty.
pub proof fn law_quoted_list_is_read_back(args: Seq<Seq<char>>)
    requires
        no_empty(args),
        forall|i: int| 0 <= i < args.len() ==> !(#[trigger] args[i]).contains('\''),
    ensures
        args_of(quoted_list(args)) == args,
        is_closed(quoted_list(args)),
    decreases args.len(),
{
    if args.len() == 0 {
        let empty = Seq::<char>::empty();
        assert(Words::start().read(empty) == Words::start());
        assert(args_of(quoted_list(args)) =~= args);
    } else {
        let last = args[args.len() - 1];
        assert(!last.contains('\''));
        assert forall|i: int| 0 <= i < last.len() implies last[i] != '\'' by {
            assert(last.contains(last[i]));
        }
        law_single_quotes_keep_text(last);
        lemma_quotes_closed(last);
        if args.len() == 1 {
            assert(seq![last] =~= args);
        } else {
            let front = args.drop_last();
            assert forall|i: int| 0 <= i < front.len() implies (#[trigger] front[i]).len() > 0
                && !front[i].contains('\'') by {
                assert(front[i] == args[i]);
            }
            law_quoted_list_is_read_back(front);
            law_lists_join(quoted_list(front), ' ', in_single_quotes(last));
            assert(front + seq![last] =~= args);
        }
    }
}

/// Blanks, tabs and the ends of lines part arguments, and no other character does.
pub proof fn law_gaps(c: char)
    ensures
        is_gap(c) <==> (c == ' ' || c == '\t' || c == '\n' || c == '\r'),
        is_plain(c) <==> !is_gap(c) && c != '\'' && c != '"' && c != '\\',
{
}

/// A text with a backslash in front of each character.
pub open spec fn escaped(s: Seq<char>) -> Seq<char>
    decreases s.len(),
{
    if s.len() == 0 {
        Seq::empty()
    } else {
        seq!['\\', s[0]] + escaped(s.drop_first())
    }
}

proof fn lemma_read_escaped(words: Words, s: Seq<char>, rest: Seq<char>)
    requires
        words.quote != Quote::Single,
    ensures
        words.read(escaped(s) + rest) == (Words { current: words.current + s, ..words }).read(rest),
    decreases s.len(),
{
    if s.len() == 0 {
        assert(escaped(s) + rest =~= rest);
        assert(words.current + s =~= words.current);
    } else {
        let behind = s.drop_first();
        let all = escaped(s) + rest;
        assert(all[0] == '\\');
        assert(all.drop_first()[0] == s[0]);
        assert(all.drop_first().drop_first() =~= escaped(behind) + rest);
        lemma_read_escaped(words.with(s[0]), behind, rest);
        assert(words.current.push(s[0]) + behind =~= words.current + s);
    }
}

proof fn lemma_read_double(words: Words, s: Seq<char>, rest: Seq<char>)
    requires
        words.quote == Quote::Double,
        forall|i: int| 0 <= i < s.len() ==> s[i] != '"' && s[i] != '\\',
    ensures
        words.read(s + rest) == (Words { current: words.current + s, ..words }).read(rest),
    decreases s.len(),
{
    if s.len() == 0 {
        assert(s + rest =~= rest);
        assert(words.current + s =~= words.current);
    } else {
        assert((s + rest)[0] == s[0]);
        assert((s + rest).drop_first() =~= s.drop_first() + rest);
        lemma_read_double(words.with(s[0]), s.drop_first(), rest);
        assert(words.current.push(s[0]) + s.drop_first() =~= words.current + s);
    }
}

/// Where a quote is opened outside of quotes, what follows stands in it.
proof fn lemma_open_quote(words: Words, rest: Seq<char>)
    requires
        words.quote == Quote::Outside,
    ensures
        words.read(seq!['\''] + rest) == words.quoted(Quote::Single).read(rest),
        words.read(seq!['"'] + rest) == words.quoted(Quote::Double).read(rest),
        words.quoted(Quote::Single).read(seq!['\''] + rest) == words.read(rest),
        words.quoted(Quote::Double).read(seq!['"'] + rest) == words.read(rest),
{
    assert((seq!['\''] + rest).drop_first() =~= rest);
    assert((seq!['"'] + rest).drop_first() =~= rest);
    assert(words.quoted(Quote::Single).quoted(Quote::Outside) == words);
    assert(words.quoted(Quote::Double).quoted(Quote::Outside) == words);
}

proof fn lemma_one_argument(s: Seq<char>, quote: Quote)
    requires
        s.len() > 0,
    ensures
        (Words { args: Seq::empty(), current: s, quote }).ended().args == seq![s],
{
    assert(Seq::<Seq<char>>::empty().push(s) =~= seq![s]);
}

/// A text in double quotes is one argument, whatever it holds but a double quote and a
/// backslash. With a backslash in front of each character every text is one argument,
/// outside of quotes and in double quotes.
pub proof fn law_double_quotes_and_backslashes(s: Seq<char>, t: Seq<char>)
    requires
        s.len() > 0,
        t.len() > 0,
        forall|i: int| 0 <= i < s.len() ==> s[i] != '"' && s[i] != '\\',
    ensures
        args_of(seq!['"'] + s + seq!['"']) == seq![s],
        args_of(escaped(t)) == seq![t],
        args_of(seq!['"'] + escaped(t) + seq!['"']) == seq![t],
{
    let start = Words::start();
    let empty = Seq::<char>::empty();
    let end = seq!['"'];
    let inside = start.quoted(Quote::Double);
    assert(empty + s =~= s);
    assert(empty + t =~= t);
    assert(end + empty =~= end);
    assert(seq!['"'] + s + end =~= seq!['"'] + (s + end));
    lemma_open_quote(start, s + end);
    lemma_read_double(inside, s, end);
    let full = Words { current: s, ..start };
    lemma_open_quote(full, empty);
    assert((Words { current: s, ..inside }) == full.quoted(Quote::Double));
    assert(full.read(empty) == full);
    lemma_one_argument(s, Quote::Outside);
    lemma_read_escaped(start, t, empty);
    assert(escaped(t) + empty =~= escaped(t));
    let whole = Words { current: t, ..start };
    assert(whole.read(empty) == whole);
    lemma_one_argument(t, Quote::Outside);
    assert(seq!['"'] + escaped(t) + end =~= seq!['"'] + (escaped(t) + end));
    lemma_open_quote(start, escaped(t) + end);
    lemma_read_escaped(inside, t, end);
    lemma_open_quote(whole, empty);
    assert((Words { current: t, ..inside }) == whole.quoted(Quote::Double));
}

/// Parts without a gap between them make up one argument, whether they stand outside of
/// quotes, in single quotes, in double quotes or behind backslashes.
pub proof fn law_parts_make_one_argument(
    a: Seq<char>,
    b: Seq<char>,
    c: Seq<char>,
    d: Seq<char>,
)
    requires
        all_plain(a),
        forall|i: int| 0 <= i < b.len() ==> b[i] != '\'',
        forall|i: int| 0 <= i < c.len() ==> c[i] != '"' && c[i] != '\\',
        a.len() + b.len() + c.len() + d.len() > 0,
    ensures
        args_of(a + (seq!['\''] + b + seq!['\'']) + (seq!['"'] + c + seq!['"']) + escaped(d))
            == seq![a + b + c + d],
{
    let start = Words::start();
    let empty = Seq::<char>::empty();
    let single = seq!['\''];
    let double = seq!['"'];
    let last = escaped(d);
    let third = double + (c + (double + last));
    let second = single + (b + (single + third));
    assert(a + (single + b + single) + (double + c + double) + last =~= a + second);
    lemma_read_plain(start, a, second);
    assert(start.current + a =~= a);
    let one = Words { current: a, ..start };
    lemma_open_quote(one, b + (single + third));
    lemma_read_single(one.quoted(Quote::Single), b, single + third);
    let two = Words { current: a + b, ..start };
    assert((Words { current: a + b, ..one.quoted(Quote::Single) }) == two.quoted(Quote::Single));
    lemma_open_quote(two, third);
    lemma_open_quote(two, c + (double + last));
    lemma_read_double(two.quoted(Quote::Double), c, double + last);
    let three = Words { current: a + b + c, ..start };
    assert((Words { current: a + b + c, ..two.quoted(Quote::Double) }) == three.quoted(
        Quote::Double,
    ));
    lemma_open_quote(three, last);
    assert(last + empty =~= last);
    lemma_read_escaped(three, d, empty);
    let four = Words { current: a + b + c + d, ..start };
    assert(four.read(empty) == four);
    lemma_one_argument(a + b + c + d, Quote::Outside);
}

/// A backslash with nothing behind it is left out, and a quote that is left open reaches
/// to the end.
pub proof fn law_unfinished_command_lines(a: Seq<char>, s: Seq<char>)
    requires
        is_closed(a),
        s.len() > 0,
        forall|i: int| 0 <= i < s.len() ==> s[i] != '\'',
    ensures
        args_of(a + seq!['\\']) == args_of(a),
        args_of(seq!['\''] + s) == seq![s],
{
    let start = Words::start();
    let empty = Seq::<char>::empty();
    let slash = seq!['\\'];
    lemma_read_in_turn(start, a, slash);
    assert(slash.drop_first() =~= empty);
    assert(slash[0] == '\\');
    lemma_open_quote(start, s);
    lemma_read_single(start.quoted(Quote::Single), s, empty);
    assert(s + empty =~= s);
    assert(empty + s =~= s);
    let full = Words { current: s, ..start.quoted(Quote::Single) };
    assert(full.read(empty) == full);
    lemma_one_argument(s, Quote::Single);
}

/// The variable for git goes before git's own setting, that before the general variable,
/// and without any of them `vi` is used.
pub proof fn law_choice_of_editor(
    git_editor: Option<Seq<char>>,
    core_editor: Option<Seq<char>>,
    editor: Option<Seq<char>>,
)
    ensures
        git_editor matches Some(e) ==> editor_of(git_editor, core_editor, editor) == e,
        git_editor is None ==> (core_editor matches Some(e) ==> editor_of(
            git_editor,
            core_editor,
            editor,
        ) == e),
        git_editor is None && core_editor is None ==> (editor matches Some(e) ==> editor_of(
            git_editor,
            core_editor,
            editor,
        ) == e),
        editor_of(None, None, None) == seq!['v', 'i'],
{
    reveal_strlit("vi");
    assert("vi"@ =~= seq!['v', 'i']);
}

/// The command is what the chosen editor's command line says: its first argument is the
/// program, the others follow in their order, and the path comes last.
pub proof fn law_editor_command(
    git_editor: Option<String>,
    core_editor: Option<String>,
    editor: Option<String>,
    path: &str,
    r: Result<EditorCommand, EditorError>,
    line: Seq<char>,
)
    requires
        call_ensures(
            ExternalEditorPopup::open_file_in_editor,
            (git_editor, core_editor, editor, path),
            r,
        ),
        line == editor_of(
            text::opt_text(git_editor),
            text::opt_text(core_editor),
            text::opt_text(editor),
        ),
    ensures
        r is Ok <==> args_of(line).len() > 0,
        r matches Ok(command) ==> {
            let args = text::views(command.args@);
            &&& seq![command.program@] + args.drop_last() == args_of(line)
            &&& args.len() > 0
            &&& args.last() == path@
        },
{
    if let Ok(command) = r {
        let words = args_of(line);
        let args = text::views(command.args@);
        assert(args.drop_last() =~= words.drop_first());
        assert(seq![command.program@] + args.drop_last() =~= words);
    }
}

/// The note shows its lines one after the other, in their order and with nothing lost but
/// the line feeds between them.
pub proof fn law_note(message: Seq<char>, i: int)
    ensures
        ({
            let note = ExternalEditorPopup::note(message);
            let lines = Seq::new(note.len(), |k: int| note[k].content);
            &&& text::join_of(lines, seq!['\n']) == message
            &&& 0 <= i < note.len() ==> !note[i].content.contains('\n') && note[i].role == Role::Raw
        }),
{
    text::law_split_and_join(message, '\n');
    let note = ExternalEditorPopup::note(message);
    let lines = Seq::new(note.len(), |k: int| note[k].content);
    assert(lines =~= text::split_of(message, '\n'));
}

/// While the editor is open its note is shown, every event is used, and all other commands
/// are taken away unless all are asked for; else nothing of that.
pub proof fn law_open_editor(
    popup: ExternalEditorPopup,
    message: &str,
    note: Option<ThemedLine>,
    used: bool,
    force_all: bool,
    cleared: bool,
)
    requires
        call_ensures(ExternalEditorPopup::draw, (&popup, message), note),
        call_ensures(ExternalEditorPopup::event, (&popup,), used),
        call_ensures(ExternalEditorPopup::clears_commands, (&popup, force_all), cleared),
    ensures
        popup.visible <==> note is Some,
        popup.visible <==> used,
        cleared <==> popup.visible && !force_all,
{
}

} // verus!
