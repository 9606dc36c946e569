//! The popup that copies a path, a part of it, or the file's content.
use vstd::prelude::*;

use crate::text;
use crate::themed;
use crate::themed::{Role, ThemedLine, ThemedSpan, ThemedSpanView};

verus! {

// ---------------------------------------------------------------------------
// Parts of a path
// ---------------------------------------------------------------------------
/// Whether a piece between two slashes names nothing.
pub open spec fn is_blank_piece(piece: Seq<char>) -> bool {
    piece.len() == 0 || piece == seq!['.']
}

/// The last piece that names something, or nothing.
pub open spec fn last_piece(pieces: Seq<Seq<char>>) -> Seq<char>
    decreases pieces.len(),
{
    if pieces.len() == 0 {
        Seq::empty()
    } else if is_blank_piece(pieces.last()) {
        last_piece(pieces.drop_last())
    } else {
        pieces.last()
    }
}

/// The name of the file that the pieces of a path lead to; nothing where they
/// lead to a parent directory.
pub open spec fn name_in(pieces: Seq<Seq<char>>) -> Seq<char> {
    let last = last_piece(pieces);
    if last == seq!['.', '.'] {
        Seq::empty()
    } else {
        last
    }
}

/// The name of the file that a path leads to, its pieces parted by slashes.
pub open spec fn file_name_of(path: Seq<char>) -> Seq<char> {
    name_in(text::split_of(path, '/'))
}

/// The index of the last dot, or -1.
pub open spec fn last_dot(name: Seq<char>) -> int
    decreases name.len(),
{
    if name.len() == 0 {
        -1
    } else if name.last() == '.' {
        name.len() - 1
    } else {
        last_dot(name.drop_last())
    }
}

/// A name without its extension. A dot at the very front begins none.
pub open spec fn stem_of(name: Seq<char>) -> Seq<char> {
    if last_dot(name) > 0 {
        name.take(last_dot(name))
    } else {
        name
    }
}

/// The extension of a name: what follows its last dot, unless that is at the
/// very front.
pub open spec fn extension_of(name: Seq<char>) -> Seq<char> {
    if last_dot(name) > 0 {
        name.skip(last_dot(name) + 1)
    } else {
        Seq::empty()
    }
}

proof fn lemma_last_dot(name: Seq<char>)
    ensures
        -1 <= last_dot(name) < name.len(),
    decreases name.len(),
{
    if name.len() > 0 {
        lemma_last_dot(name.drop_last());
    }
}

/// A path with its backslashes turned into slashes.
pub open spec fn slashed(path: Seq<char>) -> Seq<char> {
    path.map_values(
        |c: char|
            if c == '\\' {
                '/'
            } else {
                c
            },
    )
}

/// Whether a path begins with two separators, behind which some machines look
/// for a server.
pub open spec fn begins_double(path: Seq<char>) -> bool {
    let all = slashed(path);
    all.len() >= 2 && all[0] == '/' && all[1] == '/'
}

/// The name of the file that a path leads to which begins with two slashes, a
/// server or a dot, and what the server shares or a device.
pub open spec fn name_behind_server(path: Seq<char>) -> Seq<char> {
    let pieces = text::split_of(path, '/');
    if pieces.len() > 4 {
        name_in(pieces.skip(4))
    } else {
        Seq::empty()
    }
}

/// Whether a path begins with the sign that makes some machines take it as it
/// stands: two separators, a question mark and another separator.
pub open spec fn begins_verbatim(path: Seq<char>) -> bool {
    let all = slashed(path);
    begins_double(path) && all.len() >= 4 && all[2] == '?' && all[3] == '/'
}

/// Whether a path begins with a letter and a colon, which is a drive on some
/// machines.
pub open spec fn begins_with_drive(path: Seq<char>) -> bool {
    path.len() >= 2 && ('a' <= path[0] <= 'z' || 'A' <= path[0] <= 'Z') && path[1] == ':'
}

/// Whether a text stands somewhere in another one.
pub open spec fn is_part(whole: Seq<char>, part: Seq<char>) -> bool {
    exists|i: int, j: int|
        0 <= i <= j <= whole.len() && part == #[trigger] whole.subrange(i, j)
}

/// Whether `name` is what some machine takes for the name of the file that a
/// path leads to, or is empty for none. Slashes part the pieces everywhere,
/// backslashes on some machines. A drive at the front is no part of a name, and
/// neither are a server and what it shares, or a device. Of a path that is taken as it stands
/// it is said only that the name is a part of it.
pub open spec fn names_file(path: Seq<char>, name: Seq<char>) -> bool {
    let all = slashed(path);
    &&& is_part(path, name)
    &&& !begins_double(path) ==> {
        ||| name == file_name_of(path)
        ||| path.contains('\\') && name == file_name_of(all)
        ||| begins_with_drive(path) && name == file_name_of(all.skip(2))
    }
    &&& begins_double(path) && !begins_verbatim(path) ==> {
        ||| name == file_name_of(path)
        ||| path.contains('\\') && name == file_name_of(all)
        ||| name == name_behind_server(all)
    }
}

/// `std::path::Path::file_name`: the last component of the path, where that is
/// a name: not the root, and not two dots. A dot and repeated separators make
/// up no component, nor does a prefix, which is a drive or what begins with two
/// separators. Which signs separate, and whether there are prefixes, rests on
/// the machine.
#[verifier::external_body]
fn last_component(path: &str) -> (r: Option<String>)
    ensures
        match r {
            Some(name) => name@.len() > 0 && names_file(path@, name@),
            None => names_file(path@, Seq::empty()),
        },
{
    std::path::Path::new(path).file_name().map(|f| f.to_string_lossy().into_owned())
}

/// The name of the file that a path leads to, or nothing.
pub fn file_name(path: &str) -> (r: String)
    ensures
        names_file(path@, r@),
{
    match last_component(path) {
        Some(name) => name,
        None => {
            let none = String::new();
            assert(none@ =~= Seq::<char>::empty());
            none
        },
    }
}

/// The index of the last dot.
fn find_last_dot(name: &Vec<char>) -> (r: Option<usize>)
    ensures
        match r {
            Some(i) => last_dot(name@) == i,
            None => last_dot(name@) == -1,
        },
{
    let mut i: usize = name.len();
    assert(name@.take(i as int) =~= name@);
    while i > 0
        invariant
            i <= name.len(),
            last_dot(name@) == last_dot(name@.take(i as int)),
        decreases i,
    {
        assert(name@.take(i as int).drop_last() =~= name@.take(i - 1));
        if name[i - 1] == '.' {
            return Some(i - 1);
        }
        i = i - 1;
    }
    None
}

/// A name without its extension.
pub fn file_stem(name: &str) -> (r: String)
    ensures
        r@ == stem_of(name@),
{
    let chars = text::chars_of(name);
    proof {
        lemma_last_dot(name@);
    }
    match find_last_dot(&chars) {
        Some(i) => if i > 0 {
            assert(chars@.subrange(0, i as int) =~= chars@.take(i as int));
            text::slice_text(&chars, 0, i)
        } else {
            name.to_owned()
        },
        None => name.to_owned(),
    }
}

/// The extension of a name.
pub fn extension(name: &str) -> (r: String)
    ensures
        r@ == extension_of(name@),
{
    let chars = text::chars_of(name);
    proof {
        lemma_last_dot(name@);
    }
    match find_last_dot(&chars) {
        Some(i) => if 0 < i && i < chars.len() {
            assert(chars@.subrange(i + 1, chars@.len() as int) =~= chars@.skip(i + 1));
            text::slice_text(&chars, i + 1, chars.len())
        } else {
            String::new()
        },
        None => String::new(),
    }
}

// ---------------------------------------------------------------------------
// The popup
// ---------------------------------------------------------------------------
/// What can be copied.
#[derive(Clone, Copy, PartialEq, Eq, Structural, Debug)]
pub enum CopyPathType {
    Relative,
    Absolute,
    Filename,
    Basename,
    Extension,
    Content,
}

impl CopyPathType {
    pub open spec fn label_text(self) -> Seq<char> {
        match self {
            CopyPathType::Relative => "  Relative:   "@,
            CopyPathType::Absolute => "  Absolute:   "@,
            CopyPathType::Filename => "  Filename:   "@,
            CopyPathType::Basename => "  Basename:   "@,
            CopyPathType::Extension => "  Extension:  "@,
            CopyPathType::Content => "  Content:    "@,
        }
    }

    pub fn label(self) -> (r: &'static str)
        ensures
            r@ == self.label_text(),
    {
        match self {
            CopyPathType::Relative => "  Relative:   ",
            CopyPathType::Absolute => "  Absolute:   ",
            CopyPathType::Filename => "  Filename:   ",
            CopyPathType::Basename => "  Basename:   ",
            CopyPathType::Extension => "  Extension:  ",
            CopyPathType::Content => "  Content:    ",
        }
    }
}

/// The popup that copies a path, a part of it, or the file's content.
pub struct CopyPathPopup {
    pub visible: bool,
    pub kind: CopyPathType,
    pub relative_path: String,
    pub absolute_path: String,
    pub filename: String,
    pub basename: String,
    pub extension: String,
    pub content: Option<String>,
}

/// A text for the clipboard, and what the user is told once it is there.
pub struct CopyRequest {
    pub text: String,
    pub label: String,
}

/// Which of the keys that the popup knows was pressed.
#[derive(Clone, Copy, PartialEq, Eq, Structural, Debug)]
pub struct CopyPathKeys {
    pub exit_popup: bool,
    pub move_down: bool,
    pub popup_down: bool,
    pub move_up: bool,
    pub popup_up: bool,
    pub enter: bool,
}

/// A command that is offered to the user.
#[derive(Clone, Copy, PartialEq, Eq, Structural, Debug)]
pub enum CopyPathOffer {
    Close,
    Confirm,
    ChangeType,
}

/// The width and height of the popup.
pub const COPY_POPUP_WIDTH: u16 = 80;

pub const COPY_POPUP_HEIGHT: u16 = 8;

/// What can be copied, in its order. The content is last, where there is one.
pub open spec fn kinds(has_content: bool) -> Seq<CopyPathType> {
    let base = seq![
        CopyPathType::Relative,
        CopyPathType::Absolute,
        CopyPathType::Filename,
        CopyPathType::Basename,
        CopyPathType::Extension,
    ];
    if has_content {
        base.push(CopyPathType::Content)
    } else {
        base
    }
}

/// The place of a kind in that order.
pub open spec fn place_of(kind: CopyPathType) -> int {
    match kind {
        CopyPathType::Relative => 0,
        CopyPathType::Absolute => 1,
        CopyPathType::Filename => 2,
        CopyPathType::Basename => 3,
        CopyPathType::Extension => 4,
        CopyPathType::Content => 5,
    }
}

/// The kind after this one, round and round. A kind that cannot be copied
/// stays.
pub open spec fn next_of(kind: CopyPathType, has_content: bool) -> CopyPathType {
    let all = kinds(has_content);
    let place = place_of(kind);
    if place + 1 < all.len() {
        all[place + 1]
    } else if place < all.len() {
        all[0]
    } else {
        kind
    }
}

/// The kind before this one, round and round. A kind that cannot be copied
/// stays.
pub open spec fn previous_of(kind: CopyPathType, has_content: bool) -> CopyPathType {
    let all = kinds(has_content);
    let place = place_of(kind);
    if 0 < place < all.len() {
        all[place - 1]
    } else if place < all.len() {
        all.last()
    } else {
        kind
    }
}

impl CopyPathPopup {
    pub fn new() -> (r: CopyPathPopup)
        ensures
            !r.visible,
            r.kind == CopyPathType::Relative,
            r.relative_path@.len() == 0,
            r.absolute_path@.len() == 0,
            r.filename@.len() == 0,
            r.basename@.len() == 0,
            r.extension@.len() == 0,
            r.content is None,
    {
        CopyPathPopup {
            visible: false,
            kind: CopyPathType::Relative,
            relative_path: String::new(),
            absolute_path: String::new(),
            filename: String::new(),
            basename: String::new(),
            extension: String::new(),
            content: None,
        }
    }

    /// Shows the popup for a file.
    pub fn open(&mut self, relative_path: String, absolute_path: String, content: Option<String>)
        ensures
            final(self).visible,
            final(self).kind == CopyPathType::Relative,
            final(self).relative_path == relative_path,
            final(self).absolute_path == absolute_path,
            final(self).content == content,
            names_file(relative_path@, final(self).filename@),
            final(self).basename@ == stem_of(final(self).filename@),
            final(self).extension@ == extension_of(final(self).filename@),
    {
        self.filename = file_name(relative_path.as_str());
        self.basename = file_stem(self.filename.as_str());
        self.extension = extension(self.filename.as_str());
        self.relative_path = relative_path;
        self.absolute_path = absolute_path;
        self.content = content;
        self.kind = CopyPathType::Relative;
        self.visible = true;
    }

    /// What is copied for a kind.
    pub open spec fn value_of(&self, kind: CopyPathType) -> Seq<char> {
        match kind {
            CopyPathType::Relative => self.relative_path@,
            CopyPathType::Absolute => self.absolute_path@,
            CopyPathType::Filename => self.filename@,
            CopyPathType::Basename => self.basename@,
            CopyPathType::Extension => self.extension@,
            CopyPathType::Content => match self.content {
                Some(content) => content@,
                None => Seq::empty(),
            },
        }
    }

    /// What is copied for a kind.
    pub fn value(&self, kind: CopyPathType) -> (r: String)
        ensures
            r@ == self.value_of(kind),
    {
        match kind {
            CopyPathType::Relative => self.relative_path.clone(),
            CopyPathType::Absolute => self.absolute_path.clone(),
            CopyPathType::Filename => self.filename.clone(),
            CopyPathType::Basename => self.basename.clone(),
            CopyPathType::Extension => self.extension.clone(),
            CopyPathType::Content => match &self.content {
                Some(content) => content.clone(),
                None => String::new(),
            },
        }
    }

    /// What can be copied.
    pub fn available_types(&self) -> (r: Vec<CopyPathType>)
        ensures
            r@ == kinds(self.content is Some),
    {
        let mut types: Vec<CopyPathType> = Vec::new();
        types.push(CopyPathType::Relative);
        types.push(CopyPathType::Absolute);
        types.push(CopyPathType::Filename);
        types.push(CopyPathType::Basename);
        types.push(CopyPathType::Extension);
        if self.content.is_some() {
            types.push(CopyPathType::Content);
        }
        assert(types@ =~= kinds(self.content is Some));
        types
    }

    fn position(types: &Vec<CopyPathType>, kind: CopyPathType) -> (r: Option<usize>)
        requires
            types@ == kinds(true) || types@ == kinds(false),
        ensures
            match r {
                Some(i) => i < types@.len() && i == place_of(kind),
                None => place_of(kind) >= types@.len(),
            },
    {
        let mut i: usize = 0;
        while i < types.len()
            invariant
                i <= types.len(),
                types@ == kinds(true) || types@ == kinds(false),
                forall|j: int| 0 <= j < i ==> types@[j] != kind,
            decreases types.len() - i,
        {
            if types[i] == kind {
                return Some(i);
            }
            i = i + 1;
        }
        proof {
            if place_of(kind) < types@.len() {
                assert(types@[place_of(kind)] == kind);
            }
        }
        None
    }

    /// Goes to the next kind.
    pub fn next_kind(&mut self)
        ensures
            *final(self) == (CopyPathPopup {
                kind: next_of(old(self).kind, old(self).content is Some),
                ..*old(self)
            }),
    {
        let types = self.available_types();
        match CopyPathPopup::position(&types, self.kind) {
            Some(idx) => {
                let next: usize = if idx < types.len() - 1 {
                    idx + 1
                } else {
                    0
                };
                self.kind = types[next];
            },
            None => {},
        }
    }

    /// Goes to the kind before this one.
    pub fn previous_kind(&mut self)
        ensures
            *final(self) == (CopyPathPopup {
                kind: previous_of(old(self).kind, old(self).content is Some),
                ..*old(self)
            }),
    {
        let types = self.available_types();
        match CopyPathPopup::position(&types, self.kind) {
            Some(idx) => {
                let prev: usize = if idx > 0 {
                    idx - 1
                } else {
                    types.len() - 1
                };
                self.kind = types[prev];
            },
            None => {},
        }
    }

    /// What the user is told: the name of the file for its content, else what
    /// was copied.
    pub open spec fn copied_label(&self) -> Seq<char> {
        if self.kind == CopyPathType::Content {
            self.filename@
        } else {
            self.value_of(self.kind)
        }
    }

    /// Hands out what is to be copied, and hides the popup.
    pub fn copy_selected(&mut self) -> (r: CopyRequest)
        ensures
            r.text@ == old(self).value_of(old(self).kind),
            r.label@ == old(self).copied_label(),
            *final(self) == (CopyPathPopup { visible: false, ..*old(self) }),
    {
        let text = self.value(self.kind);
        let label = if self.kind == CopyPathType::Content {
            self.filename.clone()
        } else {
            text.clone()
        };
        self.visible = false;
        CopyRequest { text, label }
    }

    /// What is shown for a kind: the number of lines of the content, else what
    /// would be copied.
    pub open spec fn shown_value(&self, kind: CopyPathType) -> Seq<char> {
        if kind == CopyPathType::Content {
            let n = match self.content {
                Some(content) => text::lines_of(content@).len(),
                None => 0,
            };
            "("@ + text::decimal_text(n) + " lines)"@
        } else {
            self.value_of(kind)
        }
    }

    /// The line of a kind.
    pub open spec fn line_of(&self, kind: CopyPathType) -> Seq<ThemedSpanView> {
        let selected = self.kind == kind;
        let role = Role::Text { enabled: true, selected };
        seq![
            themed::piece(
                if selected {
                    "> "@
                } else {
                    "  "@
                },
                role,
            ),
            themed::piece(kind.label_text(), role),
            themed::piece(self.shown_value(kind), role),
        ]
    }

    /// What the popup shows.
    pub open spec fn text_lines(&self) -> Seq<Seq<ThemedSpanView>> {
        let all = kinds(self.content is Some);
        Seq::new(all.len(), |i: int| self.line_of(all[i]))
    }

    fn make_line(&self, kind: CopyPathType) -> (r: ThemedLine)
        ensures
            r@ == self.line_of(kind),
    {
        let selected = self.kind == kind;
        let role = Role::Text { enabled: true, selected };
        let prefix = if selected {
            "> "
        } else {
            "  "
        };
        let value = if kind == CopyPathType::Content {
            let n: usize = match &self.content {
                Some(content) => {
                    let lines = text::lines(content.as_str());
                    assert(text::views(lines@).len() == lines@.len());
                    lines.len()
                },
                None => 0,
            };
            text::concat3("(", text::decimal(n as u64).as_str(), " lines)")
        } else {
            self.value(kind)
        };
        let mut spans: Vec<ThemedSpan> = Vec::new();
        spans.push(ThemedSpan::new(prefix.to_owned(), role));
        spans.push(ThemedSpan::new(kind.label().to_owned(), role));
        spans.push(ThemedSpan::new(value, role));
        let out = ThemedLine { spans };
        assert(out@ =~= self.line_of(kind));
        out
    }

    /// What the popup shows.
    pub fn get_text(&self) -> (r: Vec<ThemedLine>)
        ensures
            text::views(r@) == self.text_lines(),
    {
        let types = self.available_types();
        let ghost goal = self.text_lines();
        let mut lines: Vec<ThemedLine> = Vec::new();
        let mut i: usize = 0;
        while i < types.len()
            invariant
                i <= types.len(),
                types@ == kinds(self.content is Some),
                goal == self.text_lines(),
                text::views(lines@) == goal.take(i as int),
            decreases types.len() - i,
        {
            let line = self.make_line(types[i]);
            proof {
                text::lemma_views_push(lines@, line);
                assert(goal.take(i + 1) =~= goal.take(i as int).push(line@));
            }
            lines.push(line);
            i = i + 1;
        }
        assert(goal.take(goal.len() as int) =~= goal);
        lines
    }

    /// The commands that are offered.
    pub fn commands(&self, force_all: bool) -> (r: Vec<CopyPathOffer>)
        ensures
            r@ == if self.visible || force_all {
                seq![CopyPathOffer::Close, CopyPathOffer::Confirm, CopyPathOffer::ChangeType]
            } else {
                Seq::empty()
            },
    {
        let mut out: Vec<CopyPathOffer> = Vec::new();
        if self.visible || force_all {
            out.push(CopyPathOffer::Close);
            out.push(CopyPathOffer::Confirm);
            out.push(CopyPathOffer::ChangeType);
        }
        assert(out@ =~= if self.visible || force_all {
            seq![CopyPathOffer::Close, CopyPathOffer::Confirm, CopyPathOffer::ChangeType]
        } else {
            Seq::empty()
        });
        out
    }

    /// The popup after a key that copies nothing.
    pub open spec fn after_key(self, keys: CopyPathKeys) -> CopyPathPopup {
        if keys.exit_popup {
            CopyPathPopup { visible: false, ..self }
        } else if keys.move_down || keys.popup_down {
            CopyPathPopup { kind: next_of(self.kind, self.content is Some), ..self }
        } else if keys.move_up || keys.popup_up {
            CopyPathPopup { kind: previous_of(self.kind, self.content is Some), ..self }
        } else {
            self
        }
    }

    /// Whether a key copies.
    pub open spec fn copies(keys: CopyPathKeys) -> bool {
        keys.enter && !keys.exit_popup && !keys.move_down && !keys.popup_down && !keys.move_up
            && !keys.popup_up
    }

    /// Does what a key means. Returns whether the event was used up, and what
    /// is to be copied. A popup that is shown uses up every event.
    pub fn event(&mut self, keys: Option<CopyPathKeys>) -> (r: (bool, Option<CopyRequest>))
        ensures
            r.0 == old(self).visible,
            !old(self).visible || keys is None ==> *final(self) == *old(self) && r.1 is None,
            old(self).visible && keys is Some ==> if CopyPathPopup::copies(keys->0) {
                &&& *final(self) == (CopyPathPopup { visible: false, ..*old(self) })
                &&& r.1 matches Some(request)
                &&& request.text@ == old(self).value_of(old(self).kind)
                &&& request.label@ == old(self).copied_label()
            } else {
                *final(self) == old(self).after_key(keys->0) && r.1 is None
            },
    {
        if !self.visible {
            return (false, None);
        }
        match keys {
            Some(keys) => {
                if keys.exit_popup {
                    self.close();
                } else if keys.move_down || keys.popup_down {
                    self.next_kind();
                } else if keys.move_up || keys.popup_up {
                    self.previous_kind();
                } else if keys.enter {
                    let request = self.copy_selected();
                    return (true, Some(request));
                }
            },
            None => {},
        }
        (true, None)
    }

    pub fn is_visible(&self) -> (r: bool)
        ensures
            r == self.visible,
    {
        self.visible
    }

    pub fn close(&mut self)
        ensures
            *final(self) == (CopyPathPopup { visible: false, ..*old(self) }),
    {
        self.visible = false;
    }

    pub fn show(&mut self)
        ensures
            *final(self) == (CopyPathPopup { visible: true, ..*old(self) }),
    {
        self.visible = true;
    }
}

// ---------------------------------------------------------------------------
// Laws
// ---------------------------------------------------------------------------
/// Next and previous undo each other, and going on from each kind leads
/// through all of them in their order and back to the first.
pub proof fn law_kinds_go_round(kind: CopyPathType, has_content: bool)
    requires
        has_content || kind != CopyPathType::Content,
    ensures
        previous_of(next_of(kind, has_content), has_content) == kind,
        next_of(previous_of(kind, has_content), has_content) == kind,
        place_of(next_of(kind, has_content)) == place_of(kind) + 1 || (place_of(kind) == kinds(
            has_content,
        ).len() - 1 && place_of(next_of(kind, has_content)) == 0),
        kinds(has_content).contains(next_of(kind, has_content)),
{
    let all = kinds(has_content);
    assert(all[place_of(kind)] == kind);
    assert(all[place_of(next_of(kind, has_content))] == next_of(kind, has_content));
}

/// A name with an extension is its stem, a dot and the extension; any other
/// name is its stem.
pub proof fn law_stem_and_extension(name: Seq<char>)
    ensures
        last_dot(name) > 0 ==> name == stem_of(name).push('.') + extension_of(name),
        last_dot(name) <= 0 ==> name == stem_of(name) && extension_of(name).len() == 0,
{
    lemma_last_dot(name);
    lemma_dot_at(name);
    if last_dot(name) > 0 {
        assert(name =~= stem_of(name).push('.') + extension_of(name));
    }
}

proof fn lemma_dot_at(name: Seq<char>)
    ensures
        last_dot(name) >= 0 ==> name[last_dot(name)] == '.',
    decreases name.len(),
{
    if name.len() > 0 {
        lemma_last_dot(name.drop_last());
        lemma_dot_at(name.drop_last());
    }
}

proof fn lemma_last_piece(pieces: Seq<Seq<char>>, piece: Seq<char>)
    ensures
        !is_blank_piece(piece) ==> last_piece(pieces.push(piece)) == piece,
        is_blank_piece(piece) ==> last_piece(pieces.push(piece)) == last_piece(pieces),
{
    assert(pieces.push(piece).drop_last() =~= pieces);
}

/// The name of a file is what stands behind the last slash of its path, whatever the
/// directory is called; slashes and single dots at the end make no difference. Two dots
/// name no file.
pub proof fn law_file_name(dir: Seq<char>, name: Seq<char>)
    requires
        !name.contains('/'),
        name.len() > 0,
        name != seq!['.'],
        name != seq!['.', '.'],
    ensures
        file_name_of(name) == name,
        file_name_of(dir + seq!['/'] + name) == name,
        file_name_of(dir + seq!['/'] + name + seq!['/']) == name,
        file_name_of(dir + seq!['/', '.']) == file_name_of(dir),
        file_name_of(dir + seq!['/']) == file_name_of(dir),
        file_name_of(dir + seq!['/', '.', '.']).len() == 0,
        file_name_of(Seq::empty()).len() == 0,
{
    let empty = Seq::<char>::empty();
    let dot = seq!['.'];
    let dots = seq!['.', '.'];
    let pieces = text::split_of(dir, '/');
    text::law_split_of_one(name, '/');
    text::law_split_of_one(empty, '/');
    text::law_split_of_one(dot, '/');
    text::law_split_of_one(dots, '/');
    text::lemma_split_join(dir, '/', name);
    text::lemma_split_join(dir, '/', empty);
    text::lemma_split_join(dir, '/', dot);
    text::lemma_split_join(dir, '/', dots);
    let path = dir + seq!['/'] + name;
    assert(dir.push('/') + name =~= path);
    assert(dir.push('/') + empty =~= dir + seq!['/']);
    assert(dir.push('/') + dot =~= dir + seq!['/', '.']);
    assert(dir.push('/') + dots =~= dir + seq!['/', '.', '.']);
    text::lemma_split_join(path, '/', empty);
    assert(path.push('/') + empty =~= path + seq!['/']);
    lemma_last_piece(pieces, name);
    lemma_last_piece(pieces, empty);
    lemma_last_piece(pieces, dot);
    lemma_last_piece(pieces, dots);
    lemma_last_piece(Seq::empty(), name);
    lemma_last_piece(Seq::empty(), empty);
    lemma_last_piece(pieces.push(name), empty);
    assert(pieces + seq![name] =~= pieces.push(name));
    assert(pieces + seq![empty] =~= pieces.push(empty));
    assert(pieces + seq![dot] =~= pieces.push(dot));
    assert(pieces + seq![dots] =~= pieces.push(dots));
    assert(pieces.push(name) + seq![empty] =~= pieces.push(name).push(empty));
    assert(Seq::<Seq<char>>::empty().push(name) =~= seq![name]);
    assert(Seq::<Seq<char>>::empty().push(empty) =~= seq![empty]);
    assert(dots != dot && dots.len() == 2);
}

proof fn lemma_dot_found(stem: Seq<char>, ext: Seq<char>)
    requires
        !ext.contains('.'),
    ensures
        last_dot(stem + seq!['.'] + ext) == stem.len(),
        last_dot(ext) == -1,
    decreases ext.len(),
{
    let name = stem + seq!['.'] + ext;
    if ext.len() == 0 {
        assert(name.last() == '.');
    } else {
        assert(ext.contains(ext[ext.len() - 1]));
        assert(name.last() == ext.last());
        assert(name.drop_last() =~= stem + seq!['.'] + ext.drop_last());
        assert(!ext.drop_last().contains('.')) by {
            if ext.drop_last().contains('.') {
                let i = choose|i: int| 0 <= i < ext.len() - 1 && ext.drop_last()[i] == '.';
                assert(ext[i] == '.');
            }
        }
        lemma_dot_found(stem, ext.drop_last());
    }
}

/// A name that was put together from a stem, a dot and an extension without dots is
/// taken apart into them. A name without dots, or with none but one at its front, has no
/// extension.
pub proof fn law_name_with_extension(stem: Seq<char>, ext: Seq<char>)
    requires
        !ext.contains('.'),
    ensures
        stem.len() > 0 ==> stem_of(stem + seq!['.'] + ext) == stem && extension_of(
            stem + seq!['.'] + ext,
        ) == ext,
        stem_of(ext) == ext && extension_of(ext).len() == 0,
        stem_of(seq!['.'] + ext) == seq!['.'] + ext && extension_of(seq!['.'] + ext).len() == 0,
{
    lemma_dot_found(stem, ext);
    let name = stem + seq!['.'] + ext;
    assert(name.take(stem.len() as int) =~= stem);
    assert(name.skip(stem.len() as int + 1) =~= ext);
    let empty = Seq::<char>::empty();
    lemma_dot_found(empty, ext);
    assert(empty + seq!['.'] + ext =~= seq!['.'] + ext);
}

/// Each kind has its own text and its own label; the labels are equally long. The content
/// can be chosen exactly where there is one, and is the last one to choose.
pub proof fn law_what_is_copied(popup: CopyPathPopup)
    ensures
        popup.value_of(CopyPathType::Relative) == popup.relative_path@,
        popup.value_of(CopyPathType::Absolute) == popup.absolute_path@,
        popup.value_of(CopyPathType::Filename) == popup.filename@,
        popup.value_of(CopyPathType::Basename) == popup.basename@,
        popup.value_of(CopyPathType::Extension) == popup.extension@,
        popup.content matches Some(content) ==> popup.value_of(CopyPathType::Content) == content@,
        popup.content is None ==> popup.value_of(CopyPathType::Content).len() == 0,
        CopyPathType::Relative.label_text() == "  Relative:   "@,
        CopyPathType::Absolute.label_text() == "  Absolute:   "@,
        CopyPathType::Filename.label_text() == "  Filename:   "@,
        CopyPathType::Basename.label_text() == "  Basename:   "@,
        CopyPathType::Extension.label_text() == "  Extension:  "@,
        CopyPathType::Content.label_text() == "  Content:    "@,
        kinds(false) == seq![
            CopyPathType::Relative,
            CopyPathType::Absolute,
            CopyPathType::Filename,
            CopyPathType::Basename,
            CopyPathType::Extension,
        ],
        kinds(true) == kinds(false).push(CopyPathType::Content),
        popup.kind == CopyPathType::Content ==> popup.copied_label() == popup.filename@,
        popup.kind != CopyPathType::Content ==> popup.copied_label() == popup.value_of(popup.kind),
{
}

/// From each kind the key down leads to the next one in the list, and from the last to the
/// first; the key up leads the other way.
pub proof fn law_order_of_kinds(has_content: bool, i: int)
    requires
        0 <= i < kinds(has_content).len(),
    ensures
        ({
            let all = kinds(has_content);
            let n = all.len() as int;
            &&& i + 1 < n ==> next_of(all[i], has_content) == all[i + 1]
            &&& i + 1 == n ==> next_of(all[i], has_content) == all[0]
            &&& i > 0 ==> previous_of(all[i], has_content) == all[i - 1]
            &&& i == 0 ==> previous_of(all[i], has_content) == all[n - 1]
        }),
{
}

/// The popup shows a line for each kind, in their order: its label, and what would be
/// copied, or for the content how many lines it has. The selected one, and no other, is
/// marked by its look and by the sign in front.
pub proof fn law_lines_of_popup(popup: CopyPathPopup, i: int)
    requires
        0 <= i < kinds(popup.content is Some).len(),
    ensures
        ({
            let kind = kinds(popup.content is Some)[i];
            let line = popup.text_lines()[i];
            &&& popup.text_lines().len() == kinds(popup.content is Some).len()
            &&& line.len() == 3
            &&& kind == popup.kind ==> line[0].content == seq!['>', ' ']
            &&& kind != popup.kind ==> line[0].content == seq![' ', ' ']
            &&& line[1].content == kind.label_text()
            &&& kind != CopyPathType::Content ==> line[2].content == popup.value_of(kind)
            &&& kind == CopyPathType::Content ==> (popup.content matches Some(content)
                ==> line[2].content == seq!['('] + text::decimal_text(
                text::lines_of(content@).len(),
            ) + seq![' ', 'l', 'i', 'n', 'e', 's', ')'])
            &&& line[0].role == (Role::Text { enabled: true, selected: kind == popup.kind })
            &&& line[1].role == line[0].role
            &&& line[2].role == line[0].role
        }),
{
    reveal_strlit("> ");
    reveal_strlit("  ");
    reveal_strlit("(");
    reveal_strlit(" lines)");
    assert("> "@ =~= seq!['>', ' ']);
    assert("  "@ =~= seq![' ', ' ']);
    assert("("@ =~= seq!['(']);
    assert(" lines)"@ =~= seq![' ', 'l', 'i', 'n', 'e', 's', ')']);
}

/// No key at all.
pub open spec fn no_copy_keys() -> CopyPathKeys {
    CopyPathKeys {
        exit_popup: false,
        move_down: false,
        popup_down: false,
        move_up: false,
        popup_up: false,
        enter: false,
    }
}

/// The key that leaves hides the popup, those for moving go to the next kind or to the one
/// before, and the one that confirms copies; each leaves all else as it is.
pub proof fn law_copy_keys(popup: CopyPathPopup)
    ensures
        ({
            let none = no_copy_keys();
            let has_content = popup.content is Some;
            let down = CopyPathPopup { kind: next_of(popup.kind, has_content), ..popup };
            let up = CopyPathPopup { kind: previous_of(popup.kind, has_content), ..popup };
            let hidden = CopyPathPopup { visible: false, ..popup };
            &&& popup.after_key(CopyPathKeys { exit_popup: true, ..none }) == hidden
            &&& popup.after_key(CopyPathKeys { move_down: true, ..none }) == down
            &&& popup.after_key(CopyPathKeys { popup_down: true, ..none }) == down
            &&& popup.after_key(CopyPathKeys { move_up: true, ..none }) == up
            &&& popup.after_key(CopyPathKeys { popup_up: true, ..none }) == up
            &&& popup.after_key(none) == popup
            &&& CopyPathPopup::copies(CopyPathKeys { enter: true, ..none })
            &&& !CopyPathPopup::copies(none)
            &&& !CopyPathPopup::copies(CopyPathKeys { exit_popup: true, ..none })
            &&& !CopyPathPopup::copies(CopyPathKeys { move_down: true, ..none })
            &&& !CopyPathPopup::copies(CopyPathKeys { popup_down: true, ..none })
            &&& !CopyPathPopup::copies(CopyPathKeys { move_up: true, ..none })
            &&& !CopyPathPopup::copies(CopyPathKeys { popup_up: true, ..none })
        }),
{
}

/// The name of the file, its stem and its extension are given out as the path and the
/// name say.
pub proof fn law_parts_of_name(name: &str, stem: String, ext: String)
    requires
        call_ensures(file_stem, (name,), stem),
        call_ensures(extension, (name,), ext),
    ensures
        stem@ == name@ && ext@.len() == 0 || name@ == stem@ + seq!['.'] + ext@,
        stem@.len() <= name@.len(),
        !ext@.contains('.'),
{
    law_stem_and_extension(name@);
    lemma_last_dot(name@);
    if last_dot(name@) > 0 {
        assert(stem@.push('.') + ext@ =~= stem@ + seq!['.'] + ext@);
        lemma_no_later_dot(name@);
        if ext@.contains('.') {
            let i = choose|i: int| 0 <= i < ext@.len() && ext@[i] == '.';
            assert(name@[last_dot(name@) + 1 + i] == '.');
        }
    }
}

proof fn lemma_no_later_dot(name: Seq<char>)
    ensures
        forall|i: int| last_dot(name) < i < name.len() ==> name[i] != '.',
    decreases name.len(),
{
    lemma_last_dot(name);
    if name.len() > 0 && name.last() != '.' {
        lemma_no_later_dot(name.drop_last());
        assert forall|i: int| last_dot(name) < i < name.len() implies name[i] != '.' by {
            if i < name.len() - 1 {
                assert(name.drop_last()[i] == name[i]);
            }
        }
    }
}

/// The popup opens on the relative path of the file, with both paths and the content as
/// they were given, and with the parts of the name of the file.
pub proof fn law_opened_popup(
    popup: &mut CopyPathPopup,
    relative_path: String,
    absolute_path: String,
    content: Option<String>,
)
    requires
        call_ensures(CopyPathPopup::open, (popup, relative_path, absolute_path, content), ()),
    ensures
        ({
            let shown = *final(popup);
            &&& shown.visible
            &&& shown.kind == CopyPathType::Relative
            &&& shown.value_of(CopyPathType::Relative) == relative_path@
            &&& shown.value_of(CopyPathType::Absolute) == absolute_path@
            &&& content matches Some(text) ==> shown.value_of(CopyPathType::Content) == text@
            &&& content is Some <==> shown.content is Some
            &&& shown.value_of(CopyPathType::Filename) == shown.value_of(CopyPathType::Basename)
                && shown.value_of(CopyPathType::Extension).len() == 0 || shown.value_of(
                CopyPathType::Filename,
            ) == shown.value_of(CopyPathType::Basename) + seq!['.'] + shown.value_of(
                CopyPathType::Extension,
            )
        }),
{
    let name = final(popup).filename@;
    law_stem_and_extension(name);
    if last_dot(name) > 0 {
        assert(stem_of(name).push('.') + extension_of(name) =~= stem_of(name) + seq!['.']
            + extension_of(name));
    }
}

/// A popup that is hidden uses no event and copies nothing. One that is shown uses every
/// event; what it copies is what is selected, and then it is hidden.
pub proof fn law_copy_events(
    popup: &mut CopyPathPopup,
    keys: Option<CopyPathKeys>,
    r: (bool, Option<CopyRequest>),
)
    requires
        call_ensures(CopyPathPopup::event, (popup, keys), r),
    ensures
        r.0 <==> old(popup).visible,
        r.1 matches Some(request) ==> {
            &&& old(popup).visible
            &&& !final(popup).visible
            &&& keys is Some && keys->0.enter
            &&& request.text@ == old(popup).value_of(old(popup).kind)
            &&& old(popup).kind != CopyPathType::Content ==> request.label@ == request.text@
            &&& old(popup).kind == CopyPathType::Content ==> request.label@ == old(popup).value_of(
                CopyPathType::Filename,
            )
        },
        old(popup).visible && keys == Some(
            (CopyPathKeys { enter: true, ..no_copy_keys() }),
        ) ==> r.1 is Some,
        !old(popup).visible || keys is None ==> *final(popup) == *old(popup),
        *final(popup) == (CopyPathPopup {
            visible: final(popup).visible,
            kind: final(popup).kind,
            ..*old(popup)
        }),
{
}

/// Commands are offered while the popup is shown or all are asked for: to close it, to
/// confirm and to change the kind.
pub proof fn law_offered_commands(popup: CopyPathPopup, force_all: bool, r: Vec<CopyPathOffer>)
    requires
        call_ensures(CopyPathPopup::commands, (&popup, force_all), r),
    ensures
        !popup.visible && !force_all <==> r@.len() == 0,
        popup.visible || force_all ==> r@.len() == 3 && r@.contains(CopyPathOffer::Close)
            && r@.contains(CopyPathOffer::Confirm) && r@.contains(CopyPathOffer::ChangeType),
{
    if popup.visible || force_all {
        assert(r@[0] == CopyPathOffer::Close);
        assert(r@[1] == CopyPathOffer::Confirm);
        assert(r@[2] == CopyPathOffer::ChangeType);
    }
}

/// Of the meanings that a key is bound to the first one counts: to leave, down, up, and
/// then to confirm.
pub proof fn law_first_meaning_counts(popup: CopyPathPopup, keys: CopyPathKeys)
    ensures
        keys.exit_popup ==> popup.after_key(keys) == (CopyPathPopup { visible: false, ..popup }),
        !keys.exit_popup && (keys.move_down || keys.popup_down) ==> popup.after_key(keys) == (
        CopyPathPopup { kind: next_of(popup.kind, popup.content is Some), ..popup }),
        !keys.exit_popup && !keys.move_down && !keys.popup_down && (keys.move_up || keys.popup_up)
            ==> popup.after_key(keys) == (CopyPathPopup {
            kind: previous_of(popup.kind, popup.content is Some),
            ..popup
        }),
        CopyPathPopup::copies(keys) <==> keys == (CopyPathKeys { enter: true, ..no_copy_keys() }),
{
}

} // verus!
