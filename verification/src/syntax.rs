//! The grammar of a command line, and the parse tree it yields.
//!
//! ```text
//! command-line  := stage ( '|' stage )*
//! stage         := blank* item ( blank+ item )* blank*
//! item          := redirect | word | double-quoted | single-quoted
//! redirect      := ( '<' | '>' ) blank* filename
//! filename      := regular+
//! word          := ( regular | escape | variable )+
//! double-quoted := '"' ( regular | escape | variable | blank )* '"'
//! single-quoted := "'" ( any character but "'" )* "'"
//! variable      := '$' name
//! name          := ( letter | '_' ) ( letter | digit | '_' )*
//! escape        := '\' any character
//! ```
//!
//! A blank is a space or a tab. A regular character is any character that is
//! neither a blank nor one of `| < > " ' $ \`. Choices are ordered and
//! repetitions are greedy, so a line has at most one parse.

use crate::text::chars_of;
use vstd::prelude::*;

verus! {

/// A half-open range of character positions in the source line.
#[derive(Clone, Copy, PartialEq, Eq, Debug)]
pub struct Span {
    pub start: usize,
    pub end: usize,
}

impl Span {
    /// The span lies inside a source of `len` characters.
    pub open spec fn within(self, len: nat) -> bool {
        self.start <= self.end <= len
    }

    /// The text that the span covers in `src`.
    pub open spec fn text(self, src: Seq<char>) -> Seq<char> {
        src.subrange(self.start as int, self.end as int)
    }
}

/// A blank: a space or a tab.
pub open spec fn is_blank(c: char) -> bool {
    c == ' ' || c == '\t'
}

/// A regular character: no blank, and none of the characters that the
/// grammar gives a meaning to.
pub open spec fn is_regular(c: char) -> bool {
    !is_blank(c) && c != '|' && c != '<' && c != '>' && c != '"' && c != '\'' && c != '$' && c
        != '\\'
}

/// A character with which a variable's name can start.
pub open spec fn is_name_start(c: char) -> bool {
    ('a' <= c && c <= 'z') || ('A' <= c && c <= 'Z') || c == '_'
}

/// A character that a variable's name can go on with.
pub open spec fn is_name_part(c: char) -> bool {
    is_name_start(c) || ('0' <= c && c <= '9')
}

/// The character classes of which the grammar takes whole runs.
#[derive(Clone, Copy, PartialEq, Eq, Debug)]
pub enum CharClass {
    Blank,
    NamePart,
    Regular,
    /// Anything but a single quote.
    Verbatim,
}

impl CharClass {
    /// The character belongs to the class.
    pub open spec fn accepts(self, c: char) -> bool {
        match self {
            CharClass::Blank => is_blank(c),
            CharClass::NamePart => is_name_part(c),
            CharClass::Regular => is_regular(c),
            CharClass::Verbatim => c != '\'',
        }
    }

    /// Whether the character belongs to the class.
    pub fn admits(&self, c: char) -> (b: bool)
        ensures
            b == self.accepts(c),
    {
        match self {
            CharClass::Blank => c == ' ' || c == '\t',
            CharClass::NamePart => ('a' <= c && c <= 'z') || ('A' <= c && c <= 'Z') || c == '_'
                || ('0' <= c && c <= '9'),
            CharClass::Regular => !(c == ' ' || c == '\t' || c == '|' || c == '<' || c == '>' || c
                == '"' || c == '\'' || c == '$' || c == '\\'),
            CharClass::Verbatim => c != '\'',
        }
    }
}

/// Where the longest run of characters of `class` that starts at `i` ends.
pub open spec fn run_end(s: Seq<char>, i: int, class: CharClass) -> int
    decreases s.len() - i,
{
    if 0 <= i < s.len() && class.accepts(s[i]) {
        run_end(s, i + 1, class)
    } else {
        i
    }
}

/// One element of a bare or double-quoted word.
#[derive(Clone, Copy, PartialEq, Eq, Debug)]
pub enum Piece {
    /// A regular character, standing for itself.
    Regular(char),
    /// The character that followed a backslash.
    Escaped(char),
    /// A blank inside double quotes.
    Space(char),
    /// A variable reference; the span is that of its name.
    Variable(Span),
}

impl Piece {
    /// The span of the piece, if it has one, lies inside a source of `len`
    /// characters.
    pub open spec fn within(self, len: nat) -> bool {
        match self {
            Piece::Variable(name) => name.within(len),
            _ => true,
        }
    }
}

/// Every span of the pieces lies inside a source of `len` characters.
pub open spec fn pieces_within(ps: Seq<Piece>, len: nat) -> bool {
    forall|k: int| 0 <= k < ps.len() ==> (#[trigger] ps[k]).within(len)
}

/// The piece that starts at `i`, if one does, and where it ends. Blanks are
/// pieces only inside double quotes.
pub open spec fn piece_at(s: Seq<char>, i: int, quoted: bool) -> Option<(Piece, int)> {
    if i < 0 || i >= s.len() {
        None
    } else if is_regular(s[i]) {
        Some((Piece::Regular(s[i]), i + 1))
    } else if s[i] == '\\' && i + 1 < s.len() {
        Some((Piece::Escaped(s[i + 1]), i + 2))
    } else if s[i] == '$' && i + 1 < s.len() && is_name_start(s[i + 1]) {
        let e = run_end(s, i + 1, CharClass::NamePart);
        Some((Piece::Variable(Span { start: (i + 1) as usize, end: e as usize }), e))
    } else if quoted && is_blank(s[i]) {
        Some((Piece::Space(s[i]), i + 1))
    } else {
        None
    }
}

/// The longest sequence of pieces that starts at `i`, and where it ends.
pub open spec fn pieces_from(s: Seq<char>, i: int, quoted: bool) -> (Seq<Piece>, int)
    decreases s.len() - i,
{
    match piece_at(s, i, quoted) {
        Some((p, j)) => if i < j <= s.len() {
            let (rest, e) = pieces_from(s, j, quoted);
            (seq![p] + rest, e)
        } else {
            (Seq::empty(), i)
        },
        None => (Seq::empty(), i),
    }
}

/// Scans the longest run of characters of `class` from `from`.
pub fn scan_run(src: &Vec<char>, from: usize, class: CharClass) -> (end: usize)
    requires
        from <= src@.len(),
    ensures
        end == run_end(src@, from as int, class),
        from <= end <= src@.len(),
{
    let mut i: usize = from;
    while i < src.len() && class.admits(src[i])
        invariant
            from <= i <= src@.len(),
            run_end(src@, from as int, class) == run_end(src@, i as int, class),
        decreases src@.len() - i,
    {
        i += 1;
    }
    i
}

/// Reads the piece that starts at `i`.
pub fn parse_piece(src: &Vec<char>, i: usize, quoted: bool) -> (r: Option<(Piece, usize)>)
    requires
        i <= src@.len(),
    ensures
        r matches Some((p, e)) ==> piece_at(src@, i as int, quoted) == Some((p, e as int)) && i
            < e <= src@.len() && p.within(src@.len()),
        r is None ==> piece_at(src@, i as int, quoted) is None,
{
    if i >= src.len() {
        return None;
    }
    let c: char = src[i];
    if CharClass::Regular.admits(c) {
        Some((Piece::Regular(c), i + 1))
    } else if c == '\\' && i + 1 < src.len() {
        Some((Piece::Escaped(src[i + 1]), i + 2))
    } else if c == '$' && i + 1 < src.len() && is_name_start_char(src[i + 1]) {
        let e: usize = scan_run(src, i + 1, CharClass::NamePart);
        Some((Piece::Variable(Span { start: i + 1, end: e }), e))
    } else if quoted && CharClass::Blank.admits(c) {
        Some((Piece::Space(c), i + 1))
    } else {
        None
    }
}

/// Whether a variable's name can start with `c`.
pub fn is_name_start_char(c: char) -> (b: bool)
    ensures
        b == is_name_start(c),
{
    ('a' <= c && c <= 'z') || ('A' <= c && c <= 'Z') || c == '_'
}

/// Reads the longest sequence of pieces that starts at `i`.
pub fn parse_pieces(src: &Vec<char>, i: usize, quoted: bool) -> (r: (Vec<Piece>, usize))
    requires
        i <= src@.len(),
    ensures
        (r.0@, r.1 as int) == pieces_from(src@, i as int, quoted),
        i <= r.1 <= src@.len(),
        r.0@.len() > 0 ==> i < r.1,
        pieces_within(r.0@, src@.len()),
{
    let mut out: Vec<Piece> = Vec::new();
    let mut at: usize = i;
    loop
        invariant
            i <= at <= src@.len(),
            out@.len() > 0 ==> i < at,
            pieces_within(out@, src@.len()),
            pieces_from(src@, i as int, quoted) == (
                out@ + pieces_from(src@, at as int, quoted).0,
                pieces_from(src@, at as int, quoted).1,
            ),
        decreases src@.len() - at,
    {
        match parse_piece(src, at, quoted) {
            Some((p, e)) => {
                proof {
                    let rest = pieces_from(src@, e as int, quoted).0;
                    assert(out@.push(p) + rest =~= out@ + (seq![p] + rest));
                }
                out.push(p);
                at = e;
            },
            None => {
                assert(out@ + Seq::<Piece>::empty() =~= out@);
                return (out, at);
            },
        }
    }
}

/// One item of a stage: an argument in one of its three forms, or a
/// redirection with the span of its file name.
#[derive(Clone, PartialEq, Eq, Debug)]
pub enum Item {
    Word(Vec<Piece>),
    DoubleQuoted(Vec<Piece>),
    /// The span is that of the text between the quotes.
    SingleQuoted(Span),
    RedirectInput(Span),
    RedirectOutput(Span),
}

/// An item as the contracts see it.
pub ghost enum ItemView {
    Word(Seq<Piece>),
    DoubleQuoted(Seq<Piece>),
    SingleQuoted(Span),
    RedirectInput(Span),
    RedirectOutput(Span),
}

impl View for Item {
    type V = ItemView;

    open spec fn view(&self) -> ItemView {
        match *self {
            Item::Word(ps) => ItemView::Word(ps@),
            Item::DoubleQuoted(ps) => ItemView::DoubleQuoted(ps@),
            Item::SingleQuoted(sp) => ItemView::SingleQuoted(sp),
            Item::RedirectInput(sp) => ItemView::RedirectInput(sp),
            Item::RedirectOutput(sp) => ItemView::RedirectOutput(sp),
        }
    }
}

impl ItemView {
    /// Every span of the item lies inside a source of `len` characters.
    pub open spec fn within(self, len: nat) -> bool {
        match self {
            ItemView::Word(ps) => pieces_within(ps, len),
            ItemView::DoubleQuoted(ps) => pieces_within(ps, len),
            ItemView::SingleQuoted(sp) => sp.within(len),
            ItemView::RedirectInput(sp) => sp.within(len),
            ItemView::RedirectOutput(sp) => sp.within(len),
        }
    }

    /// The item is an argument, not a redirection.
    pub open spec fn is_argument(self) -> bool {
        self is Word || self is DoubleQuoted || self is SingleQuoted
    }
}

/// Every span of the items lies inside a source of `len` characters.
pub open spec fn items_within(items: Seq<ItemView>, len: nat) -> bool {
    forall|k: int| 0 <= k < items.len() ==> (#[trigger] items[k]).within(len)
}

/// The item that starts at `i`, if one does, and where it ends.
pub open spec fn item_at(s: Seq<char>, i: int) -> Option<(ItemView, int)> {
    if i < 0 || i >= s.len() {
        None
    } else if s[i] == '"' {
        let (ps, e) = pieces_from(s, i + 1, true);
        if 0 <= e < s.len() && s[e] == '"' {
            Some((ItemView::DoubleQuoted(ps), e + 1))
        } else {
            None
        }
    } else if s[i] == '\'' {
        let e = run_end(s, i + 1, CharClass::Verbatim);
        if e < s.len() {
            Some((ItemView::SingleQuoted(Span { start: (i + 1) as usize, end: e as usize }), e + 1))
        } else {
            None
        }
    } else if s[i] == '<' || s[i] == '>' {
        let b = run_end(s, i + 1, CharClass::Blank);
        let e = run_end(s, b, CharClass::Regular);
        let name = Span { start: b as usize, end: e as usize };
        if e <= b {
            None
        } else if s[i] == '<' {
            Some((ItemView::RedirectInput(name), e))
        } else {
            Some((ItemView::RedirectOutput(name), e))
        }
    } else {
        let (ps, e) = pieces_from(s, i, false);
        if ps.len() > 0 {
            Some((ItemView::Word(ps), e))
        } else {
            None
        }
    }
}

/// The items that follow an item which ended at `i`, each after at least one
/// blank, and where the last of them ends.
pub open spec fn items_after(s: Seq<char>, i: int) -> (Seq<ItemView>, int)
    decreases s.len() - i,
{
    let b = run_end(s, i, CharClass::Blank);
    if b <= i {
        (Seq::empty(), i)
    } else {
        match item_at(s, b) {
            Some((it, e)) => if b < e <= s.len() {
                let (rest, end) = items_after(s, e);
                (seq![it] + rest, end)
            } else {
                (Seq::empty(), i)
            },
            None => (Seq::empty(), i),
        }
    }
}

/// The stage that starts at `i`, if one does, and where it ends, the blanks
/// around it included.
pub open spec fn stage_at(s: Seq<char>, i: int) -> Option<(Seq<ItemView>, int)> {
    let b = run_end(s, i, CharClass::Blank);
    match item_at(s, b) {
        Some((it, e)) => {
            let (rest, end) = items_after(s, e);
            Some((seq![it] + rest, run_end(s, end, CharClass::Blank)))
        },
        None => None,
    }
}

/// The stages that follow a stage which ended at `i`, each after a `|`, up
/// to the end of the line; `None` where the rest of the line is anything else.
pub open spec fn stages_after(s: Seq<char>, i: int) -> Option<Seq<Seq<ItemView>>>
    decreases s.len() - i,
{
    if i >= s.len() {
        Some(Seq::empty())
    } else if i >= 0 && s[i] == '|' {
        match stage_at(s, i + 1) {
            Some((st, e)) => if i < e <= s.len() {
                match stages_after(s, e) {
                    Some(rest) => Some(seq![st] + rest),
                    None => None,
                }
            } else {
                None
            },
            None => None,
        }
    } else {
        None
    }
}

/// The stages of the command line `s`; `None` where `s` is not one.
pub open spec fn stages_of(s: Seq<char>) -> Option<Seq<Seq<ItemView>>> {
    match stage_at(s, 0) {
        Some((st, e)) => match stages_after(s, e) {
            Some(rest) => Some(seq![st] + rest),
            None => None,
        },
        None => None,
    }
}

/// Reads the item that starts at `i`.
pub fn parse_item(src: &Vec<char>, i: usize) -> (r: Option<(Item, usize)>)
    requires
        i <= src@.len(),
    ensures
        r matches Some((it, e)) ==> item_at(src@, i as int) == Some((it@, e as int)) && i < e
            <= src@.len() && it@.within(src@.len()),
        r is None ==> item_at(src@, i as int) is None,
{
    if i >= src.len() {
        return None;
    }
    let c: char = src[i];
    if c == '"' {
        let (ps, e) = parse_pieces(src, i + 1, true);
        if e < src.len() && src[e] == '"' {
            Some((Item::DoubleQuoted(ps), e + 1))
        } else {
            None
        }
    } else if c == '\'' {
        let e: usize = scan_run(src, i + 1, CharClass::Verbatim);
        if e < src.len() {
            Some((Item::SingleQuoted(Span { start: i + 1, end: e }), e + 1))
        } else {
            None
        }
    } else if c == '<' || c == '>' {
        let b: usize = scan_run(src, i + 1, CharClass::Blank);
        let e: usize = scan_run(src, b, CharClass::Regular);
        let name = Span { start: b, end: e };
        if e <= b {
            None
        } else if c == '<' {
            Some((Item::RedirectInput(name), e))
        } else {
            Some((Item::RedirectOutput(name), e))
        }
    } else {
        let (ps, e) = parse_pieces(src, i, false);
        if ps.len() > 0 {
            Some((Item::Word(ps), e))
        } else {
            None
        }
    }
}

/// One stage of a pipeline: its items in source order.
#[derive(Clone, PartialEq, Eq, Debug)]
pub struct Stage {
    pub items: Vec<Item>,
}

impl View for Stage {
    type V = Seq<ItemView>;

    open spec fn view(&self) -> Seq<ItemView> {
        self.items@.map_values(|it: Item| it@)
    }
}

/// Reads the stage that starts at `i`.
pub fn parse_stage(src: &Vec<char>, i: usize) -> (r: Option<(Stage, usize)>)
    requires
        i <= src@.len(),
    ensures
        r matches Some((st, e)) ==> stage_at(src@, i as int) == Some((st@, e as int)) && i < e
            <= src@.len() && items_within(st@, src@.len()) && st@.len() > 0,
        r is None ==> stage_at(src@, i as int) is None,
{
    let b: usize = scan_run(src, i, CharClass::Blank);
    let (first, e0) = match parse_item(src, b) {
        Some(found) => found,
        None => { return None; },
    };
    let ghost head = first@;
    let mut items: Vec<Item> = Vec::new();
    items.push(first);
    let mut at: usize = e0;
    let ghost s = src@;
    let mut done: bool = false;
    assert(items@.map_values(|it: Item| it@) =~= seq![head]);
    while !done
        invariant
            s == src@,
            i < at <= s.len(),
            stage_at(s, i as int) == Some(
                (
                    items@.map_values(|it: Item| it@) + items_after(s, at as int).0,
                    run_end(s, items_after(s, at as int).1, CharClass::Blank),
                ),
            ),
            items_within(items@.map_values(|it: Item| it@), s.len()),
            items@.len() > 0,
            done ==> items_after(s, at as int) == (Seq::<ItemView>::empty(), at as int),
        decreases s.len() - at + (if done { 0int } else { 1int }),
    {
        let nb: usize = scan_run(src, at, CharClass::Blank);
        let next = if nb <= at { None } else { parse_item(src, nb) };
        match next {
            Some((it, e)) => {
                proof {
                    let rest = items_after(s, e as int).0;
                    let sofar = items@.map_values(|x: Item| x@);
                    assert(items@.push(it).map_values(|x: Item| x@) =~= sofar.push(it@));
                    assert(sofar.push(it@) + rest =~= sofar + (seq![it@] + rest));
                }
                items.push(it);
                at = e;
            },
            None => {
                done = true;
            },
        }
    }
    let end: usize = scan_run(src, at, CharClass::Blank);
    let stage = Stage { items };
    assert(stage@ + Seq::<ItemView>::empty() =~= stage@);
    Some((stage, end))
}

/// The line is not a command line of the grammar.
#[derive(Clone, Copy, PartialEq, Eq, Debug)]
pub struct ParseError {}

/// A parsed command line: the source text and its stages in source order.
/// The spans in the stages refer to the source.
#[derive(Clone, PartialEq, Eq, Debug)]
pub struct CommandLine {
    pub source: Vec<char>,
    pub stages: Vec<Stage>,
}

impl CommandLine {
    /// The stages as the contracts see them.
    pub open spec fn stages_view(&self) -> Seq<Seq<ItemView>> {
        self.stages@.map_values(|st: Stage| st@)
    }

    /// The stages are the parse of the source: there is at least one, none
    /// is empty, and every span lies inside the source.
    pub open spec fn wf(&self) -> bool {
        &&& stages_of(self.source@) == Some(self.stages_view())
        &&& self.stages@.len() >= 1
        &&& forall|k: int|
            0 <= k < self.stages@.len() ==> (#[trigger] self.stages@[k])@.len() > 0 && items_within(
                self.stages@[k]@,
                self.source@.len(),
            )
    }

    /// The number of stages of the pipeline.
    pub fn stage_count(&self) -> (n: usize)
        ensures
            n == self.stages@.len(),
    {
        self.stages.len()
    }
}

/// Parses a whole line. The line is accepted exactly when the grammar
/// derives all of it, and the result is then its one parse.
pub fn parse_command_line(line: &str) -> (r: Result<CommandLine, ParseError>)
    ensures
        match r {
            Ok(cl) => cl.source@ == line@ && cl.wf(),
            Err(_) => stages_of(line@) is None,
        },
{
    let src: Vec<char> = chars_of(line);
    let (first, e0) = match parse_stage(&src, 0) {
        Some(found) => found,
        None => { return Err(ParseError {  }); },
    };
    let ghost s = src@;
    let ghost head = first@;
    let mut stages: Vec<Stage> = Vec::new();
    stages.push(first);
    let mut at: usize = e0;
    assert(stages@.map_values(|st: Stage| st@) =~= seq![head]);
    while at < src.len()
        invariant
            s == src@,
            s == line@,
            0 < at <= s.len(),
            stages@.len() >= 1,
            forall|k: int|
                0 <= k < stages@.len() ==> (#[trigger] stages@[k])@.len() > 0 && items_within(
                    stages@[k]@,
                    s.len(),
                ),
            match stages_after(s, at as int) {
                Some(rest) => stages_of(s) == Some(stages@.map_values(|st: Stage| st@) + rest),
                None => stages_of(s) is None,
            },
        decreases s.len() - at,
    {
        if src[at] != '|' {
            return Err(ParseError {  });
        }
        match parse_stage(&src, at + 1) {
            Some((st, e)) => {
                proof {
                    let sofar = stages@.map_values(|x: Stage| x@);
                    assert(stages@.push(st).map_values(|x: Stage| x@) =~= sofar.push(st@));
                    match stages_after(s, e as int) {
                        Some(rest) => {
                            assert(sofar.push(st@) + rest =~= sofar + (seq![st@] + rest));
                        },
                        None => {},
                    }
                }
                stages.push(st);
                at = e;
            },
            None => {
                return Err(ParseError {  });
            },
        }
    }
    let cl = CommandLine { source: src, stages };
    assert(cl.stages_view() + Seq::<Seq<ItemView>>::empty() =~= cl.stages_view());
    Ok(cl)
}

/// A run ends inside the source, holds only characters of its class, and
/// stops at the first character that is not of it.
pub proof fn run_is_maximal(s: Seq<char>, i: int, class: CharClass)
    requires
        0 <= i <= s.len(),
    ensures
        i <= run_end(s, i, class) <= s.len(),
        forall|k: int| i <= k < run_end(s, i, class) ==> class.accepts(#[trigger] s[k]),
        run_end(s, i, class) < s.len() ==> !class.accepts(s[run_end(s, i, class)]),
    decreases s.len() - i,
{
    if i < s.len() && class.accepts(s[i]) {
        run_is_maximal(s, i + 1, class);
    }
}

/// The text of which a piece is the reading.
pub open spec fn piece_source(p: Piece, s: Seq<char>) -> Seq<char> {
    match p {
        Piece::Regular(c) => seq![c],
        Piece::Escaped(c) => seq!['\\', c],
        Piece::Space(c) => seq![c],
        Piece::Variable(name) => seq!['$'] + name.text(s),
    }
}

/// The text of which a sequence of pieces is the reading.
pub open spec fn pieces_source(ps: Seq<Piece>, s: Seq<char>) -> Seq<char>
    decreases ps.len(),
{
    if ps.len() == 0 {
        Seq::empty()
    } else {
        piece_source(ps[0], s) + pieces_source(ps.drop_first(), s)
    }
}

/// The text of which an argument is the reading, quotes included. A
/// redirection has none here: the blanks before its file name are not kept.
pub open spec fn argument_source(it: ItemView, s: Seq<char>) -> Seq<char> {
    match it {
        ItemView::Word(ps) => pieces_source(ps, s),
        ItemView::DoubleQuoted(ps) => seq!['"'] + pieces_source(ps, s) + seq!['"'],
        ItemView::SingleQuoted(sp) => seq!['\''] + sp.text(s) + seq!['\''],
        ItemView::RedirectInput(_) => Seq::empty(),
        ItemView::RedirectOutput(_) => Seq::empty(),
    }
}

/// A piece that is read at `i` is the reading of exactly the text from `i`
/// to its end, and its span lies in the source.
pub proof fn piece_covers_its_text(s: Seq<char>, i: int, quoted: bool)
    requires
        s.len() <= usize::MAX,
        piece_at(s, i, quoted) is Some,
    ensures
        ({
            let (p, e) = piece_at(s, i, quoted)->0;
            &&& 0 <= i < e <= s.len()
            &&& piece_source(p, s) == s.subrange(i, e)
            &&& p.within(s.len())
            &&& p is Space ==> quoted
        }),
{
    let (p, e) = piece_at(s, i, quoted)->0;
    if p is Variable {
        run_is_maximal(s, i + 1, CharClass::NamePart);
    }
    assert(piece_source(p, s) =~= s.subrange(i, e));
}

/// The pieces that are read from `i` are the reading of exactly the text
/// from `i` to their end; blanks are among them only inside double quotes.
pub proof fn pieces_cover_their_text(s: Seq<char>, i: int, quoted: bool)
    requires
        s.len() <= usize::MAX,
        0 <= i <= s.len(),
    ensures
        ({
            let (ps, e) = pieces_from(s, i, quoted);
            &&& i <= e <= s.len()
            &&& (ps.len() > 0 ==> i < e)
            &&& pieces_source(ps, s) == s.subrange(i, e)
            &&& pieces_within(ps, s.len())
            &&& forall|k: int| 0 <= k < ps.len() && (#[trigger] ps[k]) is Space ==> quoted
        }),
    decreases s.len() - i,
{
    let (ps, e) = pieces_from(s, i, quoted);
    match piece_at(s, i, quoted) {
        Some((p, j)) => {
            piece_covers_its_text(s, i, quoted);
            pieces_cover_their_text(s, j, quoted);
            let (rest, _) = pieces_from(s, j, quoted);
            assert(ps == seq![p] + rest);
            assert(ps.drop_first() =~= rest);
            assert(s.subrange(i, j) + s.subrange(j, e) =~= s.subrange(i, e));
            assert forall|k: int| 0 <= k < ps.len() implies (#[trigger] ps[k]).within(s.len())
                && (ps[k] is Space ==> quoted) by {
                if k > 0 {
                    assert(ps[k] == rest[k - 1]);
                }
            }
        },
        None => {
            assert(s.subrange(i, i) =~= Seq::<char>::empty());
        },
    }
}

/// An item that is read at `i` ends after `i`, inside the source, and its
/// spans lie in the source. An argument is the reading of exactly the text
/// from `i` to its end. Of a redirection, the operator stands at `i`, only
/// blanks separate it from the file name, and the file name is a run of
/// regular characters, not empty, that ends where the item ends.
pub proof fn item_covers_its_text(s: Seq<char>, i: int)
    requires
        s.len() <= usize::MAX,
        item_at(s, i) is Some,
    ensures
        ({
            let (it, e) = item_at(s, i)->0;
            &&& 0 <= i < e <= s.len()
            &&& it.within(s.len())
            &&& it.is_argument() ==> argument_source(it, s) == s.subrange(i, e)
            &&& it is RedirectInput ==> s[i] == '<'
            &&& it is RedirectOutput ==> s[i] == '>'
            &&& forall|name: Span|
                it == ItemView::RedirectInput(name) || it == ItemView::RedirectOutput(name) ==> {
                    &&& i < name.start < name.end == e
                    &&& forall|k: int| i < k < name.start ==> is_blank(#[trigger] s[k])
                    &&& forall|k: int| name.start <= k < name.end ==> is_regular(#[trigger] s[k])
                }
        }),
{
    let (it, e) = item_at(s, i)->0;
    if s[i] == '"' {
        pieces_cover_their_text(s, i + 1, true);
        let (ps, c) = pieces_from(s, i + 1, true);
        assert(seq!['"'] + s.subrange(i + 1, c) + seq!['"'] =~= s.subrange(i, e));
    } else if s[i] == '\'' {
        run_is_maximal(s, i + 1, CharClass::Verbatim);
        let c = run_end(s, i + 1, CharClass::Verbatim);
        assert(seq!['\''] + s.subrange(i + 1, c) + seq!['\''] =~= s.subrange(i, e));
    } else if s[i] == '<' || s[i] == '>' {
        run_is_maximal(s, i + 1, CharClass::Blank);
        let b = run_end(s, i + 1, CharClass::Blank);
        run_is_maximal(s, b, CharClass::Regular);
    } else {
        pieces_cover_their_text(s, i, false);
    }
}

proof fn items_after_lie_within(s: Seq<char>, i: int)
    requires
        s.len() <= usize::MAX,
        0 <= i <= s.len(),
    ensures
        i <= items_after(s, i).1 <= s.len(),
        items_within(items_after(s, i).0, s.len()),
    decreases s.len() - i,
{
    run_is_maximal(s, i, CharClass::Blank);
    let b = run_end(s, i, CharClass::Blank);
    if b > i {
        match item_at(s, b) {
            Some((it, e)) => {
                item_covers_its_text(s, b);
                items_after_lie_within(s, e);
                let (rest, _) = items_after(s, e);
                let items = items_after(s, i).0;
                assert forall|k: int| 0 <= k < items.len() implies (#[trigger] items[k]).within(
                    s.len(),
                ) by {
                    if k > 0 {
                        assert(items[k] == rest[k - 1]);
                    }
                }
            },
            None => {},
        }
    }
}

/// A stage that is read at `i` ends after `i`, inside the source; it has
/// at least one item, and the spans of its items lie in the source.
pub proof fn stage_lies_within(s: Seq<char>, i: int)
    requires
        s.len() <= usize::MAX,
        0 <= i <= s.len(),
        stage_at(s, i) is Some,
    ensures
        ({
            let (items, e) = stage_at(s, i)->0;
            &&& i < e <= s.len()
            &&& items.len() >= 1
            &&& items_within(items, s.len())
        }),
{
    run_is_maximal(s, i, CharClass::Blank);
    let b = run_end(s, i, CharClass::Blank);
    item_covers_its_text(s, b);
    let (it, e0) = item_at(s, b)->0;
    items_after_lie_within(s, e0);
    let (rest, end) = items_after(s, e0);
    run_is_maximal(s, end, CharClass::Blank);
    let (items, _) = stage_at(s, i)->0;
    assert forall|k: int| 0 <= k < items.len() implies (#[trigger] items[k]).within(s.len()) by {
        if k > 0 {
            assert(items[k] == rest[k - 1]);
        }
    }
}

proof fn stages_after_lie_within(s: Seq<char>, i: int)
    requires
        s.len() <= usize::MAX,
        0 <= i <= s.len(),
        stages_after(s, i) is Some,
    ensures
        forall|k: int|
            0 <= k < stages_after(s, i)->0.len() ==> (#[trigger] stages_after(s, i)->0[k]).len() >= 1
                && items_within(stages_after(s, i)->0[k], s.len()),
    decreases s.len() - i,
{
    if i < s.len() {
        stage_lies_within(s, i + 1);
        let (st, e) = stage_at(s, i + 1)->0;
        stages_after_lie_within(s, e);
        let rest = stages_after(s, e)->0;
        let all = stages_after(s, i)->0;
        assert forall|k: int| 0 <= k < all.len() implies (#[trigger] all[k]).len() >= 1
            && items_within(all[k], s.len()) by {
            if k > 0 {
                assert(all[k] == rest[k - 1]);
            }
        }
    }
}

/// A line that parses has at least one stage, every stage has at least one
/// item, and every span lies in the line.
pub proof fn parsed_line_lies_within(s: Seq<char>)
    requires
        s.len() <= usize::MAX,
        stages_of(s) is Some,
    ensures
        stages_of(s)->0.len() >= 1,
        forall|k: int|
            0 <= k < stages_of(s)->0.len() ==> (#[trigger] stages_of(s)->0[k]).len() >= 1
                && items_within(stages_of(s)->0[k], s.len()),
{
    stage_lies_within(s, 0);
    let (st, e) = stage_at(s, 0)->0;
    stages_after_lie_within(s, e);
    let rest = stages_after(s, e)->0;
    let all = stages_of(s)->0;
    assert forall|k: int| 0 <= k < all.len() implies (#[trigger] all[k]).len() >= 1
        && items_within(all[k], s.len()) by {
        if k > 0 {
            assert(all[k] == rest[k - 1]);
        }
    }
}

} // verus!
