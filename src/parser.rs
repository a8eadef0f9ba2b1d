//! Recursive-descent parser from template source text to the syntax tree.
use vstd::prelude::*;
use crate::text::{
    push_str, str_eq,
    char_is_ident, char_is_ident_start, char_is_space, chars_of, is_alpha, is_ident_char, is_space,
    lead_count, lead_space, lemma_lead_count, lemma_trail_count, push_char,
    trim,
};

verus! {

/// One parsed source file.
#[derive(Debug, PartialEq)]
pub struct RuitlFile {
    pub components: Vec<ComponentDef>,
    pub templates: Vec<TemplateDef>,
    pub imports: Vec<ImportDef>,
}

/// A component: its name and the properties it takes.
#[derive(Debug, Clone, PartialEq)]
pub struct ComponentDef {
    pub name: String,
    pub props: Vec<PropDef>,
    pub generics: Vec<String>,
}

/// One property of a component.
#[derive(Debug, Clone, PartialEq)]
pub struct PropDef {
    pub name: String,
    pub prop_type: String,
    pub optional: bool,
    pub default_value: Option<String>,
}

/// A template: the markup that renders the component of the same name.
#[derive(Debug, PartialEq)]
pub struct TemplateDef {
    pub name: String,
    pub params: Vec<ParamDef>,
    pub body: TemplateAst,
}

/// One parameter of a template.
#[derive(Debug, Clone, PartialEq)]
pub struct ParamDef {
    pub name: String,
    pub param_type: String,
}

/// An import: a path and the items taken from it.
#[derive(Debug, Clone, PartialEq)]
pub struct ImportDef {
    pub path: String,
    pub items: Vec<String>,
}

/// A node of a template body.
#[derive(Debug, PartialEq)]
pub enum TemplateAst {
    /// An element: `<div class="foo">content</div>`.
    Element { tag: String, attributes: Vec<Attribute>, children: Vec<TemplateAst>, self_closing: bool },
    /// Literal text.
    Text(String),
    /// An embedded expression: `{expr}`.
    Expression(String),
    /// `if condition { ... } else { ... }`.
    If { condition: String, then_branch: Box<TemplateAst>, else_branch: Option<Box<TemplateAst>> },
    /// `for item in items { ... }`.
    For { variable: String, iterable: String, body: Box<TemplateAst> },
    /// `match expr { pattern => { ... } ... }`.
    Match { expression: String, arms: Vec<MatchArm> },
    /// A component invocation: `@Button(text: "x")`.
    Component { name: String, props: Vec<PropValue> },
    /// Several nodes in order.
    Fragment(Vec<TemplateAst>),
    /// Markup emitted without escaping.
    Raw(String),
}

/// An attribute of an element.
#[derive(Debug, Clone, PartialEq)]
pub struct Attribute {
    pub name: String,
    pub value: AttributeValue,
}

/// How the value of an attribute is given.
#[derive(Debug, Clone, PartialEq)]
pub enum AttributeValue {
    /// A literal value: `class="foo"`.
    Static(String),
    /// An expression: `class={expr}`.
    Expression(String),
    /// Present only when the guard holds: `disabled?={condition}`.
    Conditional(String),
}

/// One arm of a `match`.
#[derive(Debug, PartialEq)]
pub struct MatchArm {
    pub pattern: String,
    pub body: TemplateAst,
}

/// A property handed to an invoked component.
#[derive(Debug, Clone, PartialEq)]
pub struct PropValue {
    pub name: String,
    pub value: String,
}

/// A failure to parse, with the line and column where it was found.
#[derive(Debug, Clone)]
pub struct ParseError {
    pub message: String,
    pub line: usize,
    pub column: usize,
}

/// The parser state: the input characters and a position with its line and
/// column.
#[derive(Debug)]
pub struct RuitlParser {
    input: Vec<char>,
    position: usize,
    line: usize,
    column: usize,
}

// ---------------------------------------------------------------------
// Positions
// ---------------------------------------------------------------------

/// The line (from 1) of position `p` of `s`.
pub open spec fn line_at(s: Seq<char>, p: int) -> int
    decreases p,
{
    if p <= 0 || p > s.len() {
        1
    } else if s[p - 1] == '\n' {
        line_at(s, p - 1) + 1
    } else {
        line_at(s, p - 1)
    }
}

/// The column (from 1) of position `p` of `s`.
pub open spec fn column_at(s: Seq<char>, p: int) -> int
    decreases p,
{
    if p <= 0 || p > s.len() {
        1
    } else if s[p - 1] == '\n' {
        1
    } else {
        column_at(s, p - 1) + 1
    }
}

proof fn lemma_position_bounds(s: Seq<char>, p: int)
    requires
        0 <= p <= s.len(),
    ensures
        1 <= line_at(s, p) <= p + 1,
        1 <= column_at(s, p) <= p + 1,
    decreases p,
{
    if p > 0 {
        lemma_position_bounds(s, p - 1);
    }
}

/// `e` reports the line and column of some position of `s`.
pub open spec fn located(s: Seq<char>, e: ParseError) -> bool {
    exists|p: int| 0 <= p <= s.len() && e.line == line_at(s, p) && e.column == column_at(s, p)
}

/// `e` reports position `p` of `s`.
pub open spec fn error_at(s: Seq<char>, p: int, e: ParseError) -> bool {
    e.line == line_at(s, p) && e.column == column_at(s, p)
}

/// A character that may start an identifier.
pub open spec fn is_ident_start(c: char) -> bool {
    is_alpha(c) || c == '_'
}

/// `s` holds `w` at position `p`.
pub open spec fn holds_at(s: Seq<char>, p: int, w: Seq<char>) -> bool {
    0 <= p && p + w.len() <= s.len() && s.subrange(p, p + w.len()) == w
}

/// `s` holds the keyword `w` at position `p`, not followed by an identifier
/// character.
pub open spec fn keyword_at(s: Seq<char>, p: int, w: Seq<char>) -> bool {
    holds_at(s, p, w) && (p + w.len() == s.len() || !is_ident_char(s[p + w.len()]))
}


/// The first position at or after `p` that does not hold white space.
pub open spec fn after_space(s: Seq<char>, p: int) -> int {
    p + lead_space(s.subrange(p, s.len() as int))
}

/// The first position at or after `p` that does not hold an identifier
/// character.
pub open spec fn after_ident(s: Seq<char>, p: int) -> int {
    p + lead_count(s.subrange(p, s.len() as int), |c: char| is_ident_char(c))
}

/// A character that may continue an attribute name.
pub open spec fn is_attr_name_char(c: char) -> bool {
    is_ident_char(c) || c == '-'
}

/// The first position at or after `p` that does not hold an attribute name
/// character.
pub open spec fn after_attr_name(s: Seq<char>, p: int) -> int {
    p + lead_count(s.subrange(p, s.len() as int), |c: char| is_attr_name_char(c))
}

/// Number of occurrences of `c` in `s[a..b]`.
pub open spec fn count_in(s: Seq<char>, a: int, b: int, c: char) -> int
    decreases b - a,
{
    if b <= a {
        0
    } else {
        count_in(s, a, b - 1, c) + if s[b - 1] == c {
            1int
        } else {
            0int
        }
    }
}

/// Openers minus closers in `s[a..b]`.
pub open spec fn depth(s: Seq<char>, a: int, b: int, open: char, close: char) -> int {
    count_in(s, a, b, open) - count_in(s, a, b, close)
}

/// Whether a scan of an expression that started at `a` ends at `j`: the
/// character there is a terminator, and the scanned text has as many
/// closers as openers of each kind of bracket, so the terminator stands
/// outside every balanced sub-expression.
pub open spec fn stops_at(s: Seq<char>, a: int, j: int, terms: Seq<char>) -> bool {
    let c = s[j];
    let braces = depth(s, a, j, '{', '}');
    let parens = depth(s, a, j, '(', ')');
    let brackets = depth(s, a, j, '[', ']');
    terms.contains(c) && braces == 0 && parens == 0 && brackets == 0
}

/// Whether a run of text stops at `p`: a markup, expression or component
/// delimiter, or a control keyword.
pub open spec fn text_stops_at(s: Seq<char>, p: int) -> bool {
    let c = s[p];
    c == '<' || c == '{' || c == '@' || c == '}' || keyword_at(s, p, "if"@) || keyword_at(
        s,
        p,
        "for"@,
    ) || keyword_at(s, p, "match"@) || keyword_at(s, p, "else"@)
}


/// The character that an escape `\c` in a string literal stands for.
pub open spec fn unescape(c: char) -> char {
    if c == 'n' {
        '\n'
    } else if c == 't' {
        '\t'
    } else if c == 'r' {
        '\r'
    } else {
        c
    }
}

/// The rest of a string literal whose body starts at `p`: its value and the
/// position after the closing quote, or `None` if the input ends first.
pub open spec fn literal_rest(s: Seq<char>, p: int) -> Option<(Seq<char>, int)>
    decreases s.len() - p,
{
    if p < 0 || p >= s.len() {
        None
    } else if s[p] == '"' {
        Some((Seq::empty(), p + 1))
    } else if s[p] == '\\' {
        if p + 1 >= s.len() {
            None
        } else {
            prepend(seq![unescape(s[p + 1])], literal_rest(s, p + 2))
        }
    } else {
        prepend(seq![s[p]], literal_rest(s, p + 1))
    }
}

/// `o` with `a` put in front of its value.
pub open spec fn prepend(a: Seq<char>, o: Option<(Seq<char>, int)>) -> Option<(Seq<char>, int)> {
    match o {
        Some((v, e)) => Some((a + v, e)),
        None => None,
    }
}

/// Whether a scan of a type that started at `a` ends at `j`: a separator
/// outside square and angle brackets.
pub open spec fn type_stops_at(s: Seq<char>, a: int, j: int) -> bool {
    let c = s[j];
    (c == ',' || c == '=' || c == '?' || c == ')' || c == '\n' || c == '}') && depth(
        s,
        a,
        j,
        '[',
        ']',
    ) == 0 && depth(s, a, j, '<', '>') == 0
}

/// `e` is the first position from `a` on where `stop` holds, or the end.
pub open spec fn first_stop(s: Seq<char>, a: int, e: int, stop: spec_fn(int) -> bool) -> bool {
    &&& a <= e <= s.len()
    &&& forall|j: int| a <= j < e ==> !#[trigger] stop(j)
    &&& e == s.len() || stop(e)
}

proof fn lemma_count_bound(s: Seq<char>, a: int, b: int, c: char)
    ensures
        0 <= count_in(s, a, b, c),
        a <= b ==> count_in(s, a, b, c) <= b - a,
    decreases b - a,
{
    if b > a {
        lemma_count_bound(s, a, b - 1, c);
    }
}

impl RuitlParser {
    /// The parser's invariant: position, line and column agree, and the
    /// input is short enough for every count to fit.
    pub closed spec fn wf(&self) -> bool {
        &&& self.input@.len() < isize::MAX
        &&& self.position <= self.input@.len()
        &&& self.line == line_at(self.input@, self.position as int)
        &&& self.column == column_at(self.input@, self.position as int)
    }

    /// The input characters.
    pub closed spec fn text(&self) -> Seq<char> {
        self.input@
    }

    /// The current position.
    pub closed spec fn pos(&self) -> int {
        self.position as int
    }

    /// The characters left to read.
    pub closed spec fn left(&self) -> int {
        self.input@.len() - self.position
    }

    /// `self` moved forward over the same input, keeping the invariant.
    pub closed spec fn moved_from(&self, old: &RuitlParser) -> bool {
        &&& self.wf()
        &&& self.input@ == old.input@
        &&& self.position >= old.position
    }

    /// A parser at the start of `input`.
    pub fn new(input: String) -> (r: Self)
        requires
            input@.len() < isize::MAX,
        ensures
            r.wf(),
            r.text() == input@,
            r.pos() == 0,
    {
        RuitlParser { input: chars_of(input.as_str()), position: 0, line: 1, column: 1 }
    }

    /// A parse error at the current position.
    pub fn error(&self, message: &str) -> (e: ParseError)
        requires
            self.wf(),
        ensures
            e.line == line_at(self.text(), self.pos()),
            e.column == column_at(self.text(), self.pos()),
            e.message@ == message@,
            located(self.text(), e),
    {
        ParseError { message: message.to_string(), line: self.line, column: self.column }
    }

    /// Whether all input was read.
    pub fn is_at_end(&self) -> (r: bool)
        ensures
            r == (self.pos() >= self.text().len()),
    {
        self.position >= self.input.len()
    }

    /// The current character, or `'\0'` at the end.
    pub fn current_char(&self) -> (c: char)
        ensures
            self.pos() < self.text().len() ==> c == self.text()[self.pos()],
            self.pos() >= self.text().len() ==> c == '\0',
    {
        if self.position >= self.input.len() {
            '\0'
        } else {
            self.input[self.position]
        }
    }

    /// The character after the current one, or `'\0'` past the end.
    pub fn peek_char(&self) -> (c: char)
        requires
            self.wf(),
        ensures
            self.pos() + 1 < self.text().len() ==> c == self.text()[self.pos() + 1],
            self.pos() + 1 >= self.text().len() ==> c == '\0',
    {
        if self.position + 1 >= self.input.len() {
            '\0'
        } else {
            self.input[self.position + 1]
        }
    }

    /// Whether the current character is `expected`.
    pub fn check_char(&self, expected: char) -> (r: bool)
        ensures
            r == (self.pos() < self.text().len() && self.text()[self.pos()]
                == expected),
    {
        self.position < self.input.len() && self.input[self.position] == expected
    }

    /// Moves one character forward, unless at the end.
    pub fn advance(&mut self)
        requires
            old(self).wf(),
        ensures
            final(self).wf(),
            final(self).text() == old(self).text(),
            final(self).pos() == if old(self).pos() < old(self).text().len() {
                old(self).pos() + 1
            } else {
                old(self).pos()
            },
    {
        if self.position < self.input.len() {
            proof {
                lemma_position_bounds(self.text(), self.position as int);
            }
            if self.input[self.position] == '\n' {
                self.line = self.line + 1;
                self.column = 1;
            } else {
                self.column = self.column + 1;
            }
            self.position = self.position + 1;
        }
    }

    /// Consumes `expected` if it is the current character.
    pub fn match_char(&mut self, expected: char) -> (r: bool)
        requires
            old(self).wf(),
        ensures
            final(self).wf(),
            final(self).text() == old(self).text(),
            r == (old(self).pos() < old(self).text().len() && old(self).text()[old(
                self,
            ).pos()] == expected),
            final(self).pos() == if r {
                old(self).pos() + 1
            } else {
                old(self).pos()
            },
    {
        if self.check_char(expected) {
            self.advance();
            true
        } else {
            false
        }
    }

    /// Whether the input holds `w` at the current position.
    pub fn looking_at(&self, w: &Vec<char>) -> (r: bool)
        requires
            self.wf(),
        ensures
            r == holds_at(self.text(), self.pos(), w@),
    {
        if w.len() > self.input.len() - self.position {
            return false;
        }
        let mut i: usize = 0;
        while i < w.len()
            invariant
                self.wf(),
                self.position + w@.len() <= self.text().len(),
                i <= w@.len(),
                forall|j: int| 0 <= j < i ==> self.text()[self.position + j] == w@[j],
            decreases w@.len() - i,
        {
            if self.input[self.position + i] != w[i] {
                assert(self.text().subrange(self.position as int, self.position + w@.len())[i as int]
                    != w@[i as int]);
                return false;
            }
            i = i + 1;
        }
        assert(self.text().subrange(self.position as int, self.position + w@.len()) =~= w@);
        true
    }

    /// Moves `n` characters forward.
    fn advance_by(&mut self, n: usize)
        requires
            old(self).wf(),
            old(self).pos() + n <= old(self).text().len(),
        ensures
            final(self).wf(),
            final(self).text() == old(self).text(),
            final(self).pos() == old(self).pos() + n,
    {
        let mut k: usize = 0;
        while k < n
            invariant
                self.wf(),
                self.text() == old(self).text(),
                k <= n,
                old(self).position + n <= self.input@.len(),
                self.position == old(self).position + k,
            decreases n - k,
        {
            self.advance();
            k = k + 1;
        }
    }

    /// Consumes `expected` if the input holds it at the current position.
    pub fn match_str(&mut self, expected: &str) -> (r: bool)
        requires
            old(self).wf(),
        ensures
            final(self).wf(),
            final(self).text() == old(self).text(),
            r == holds_at(old(self).text(), old(self).pos(), expected@),
            final(self).pos() == if r {
                old(self).pos() + expected@.len()
            } else {
                old(self).pos()
            },
    {
        let w = chars_of(expected);
        if self.looking_at(&w) {
            self.advance_by(w.len());
            true
        } else {
            false
        }
    }

    /// Whether the keyword `keyword` stands at the current position.
    fn keyword_here(&self, keyword: &str) -> (r: bool)
        requires
            self.wf(),
        ensures
            r == keyword_at(self.text(), self.pos(), keyword@),
    {
        let w = chars_of(keyword);
        if !self.looking_at(&w) {
            return false;
        }
        let next = self.position + w.len();
        next == self.input.len() || !char_is_ident(self.input[next])
    }

    /// Consumes the keyword `keyword` if it stands at the current position.
    pub fn match_keyword(&mut self, keyword: &str) -> (r: bool)
        requires
            old(self).wf(),
        ensures
            final(self).wf(),
            final(self).text() == old(self).text(),
            r == keyword_at(old(self).text(), old(self).pos(), keyword@),
            final(self).pos() == if r {
                old(self).pos() + keyword@.len()
            } else {
                old(self).pos()
            },
    {
        if self.keyword_here(keyword) {
            let n = chars_of(keyword).len();
            self.advance_by(n);
            true
        } else {
            false
        }
    }

    /// Whether one of `keywords` stands at the current position.
    pub fn at_keyword(&self, keywords: &[&str]) -> (r: bool)
        requires
            self.wf(),
        ensures
            r == exists|i: int|
                0 <= i < keywords@.len() && keyword_at(
                    self.text(),
                    self.pos(),
                    keywords@[i]@,
                ),
    {
        let mut i: usize = 0;
        while i < keywords.len()
            invariant
                self.wf(),
                i <= keywords@.len(),
                forall|j: int|
                    0 <= j < i ==> !keyword_at(self.text(), self.position as int, keywords@[j]@),
            decreases keywords@.len() - i,
        {
            if self.keyword_here(keywords[i]) {
                return true;
            }
            i = i + 1;
        }
        false
    }
    /// The characters `a..b` of the input.
    fn slice(&self, a: usize, b: usize) -> (r: String)
        requires
            a <= b <= self.input@.len(),
        ensures
            r@ == self.input@.subrange(a as int, b as int),
    {
        let mut r = String::new();
        let mut i: usize = a;
        while i < b
            invariant
                a <= i <= b,
                b <= self.input@.len(),
                r@ == self.input@.subrange(a as int, i as int),
            decreases b - i,
        {
            push_char(&mut r, self.input[i]);
            i = i + 1;
            assert(r@ =~= self.input@.subrange(a as int, i as int));
        }
        r
    }

    /// The characters `a..b` of the input without leading and trailing
    /// white space.
    fn slice_trimmed(&self, a: usize, b: usize) -> (r: String)
        requires
            a <= b <= self.input@.len(),
        ensures
            r@ == trim(self.input@.subrange(a as int, b as int)),
    {
        let ghost t = self.input@.subrange(a as int, b as int);
        let mut lo: usize = a;
        while lo < b && char_is_space(self.input[lo])
            invariant
                a <= lo <= b,
                b <= self.input@.len(),
                t == self.input@.subrange(a as int, b as int),
                forall|i: int| a <= i < lo ==> is_space(self.input@[i]),
            decreases b - lo,
        {
            lo = lo + 1;
        }
        proof {
            lemma_lead_count(t, |c: char| is_space(c), lo - a);
        }
        if lo == b {
            return String::new();
        }
        let mut hi: usize = b;
        while hi > lo && char_is_space(self.input[hi - 1])
            invariant
                lo < b,
                lo <= hi <= b,
                b <= self.input@.len(),
                !is_space(self.input@[lo as int]),
                t == self.input@.subrange(a as int, b as int),
                forall|i: int| hi <= i < b ==> is_space(self.input@[i]),
            decreases hi,
        {
            hi = hi - 1;
        }
        proof {
            lemma_trail_count(t, |c: char| is_space(c), b - hi);
            assert(t.subrange(lo - a, b - a - (b - hi)) =~= self.input@.subrange(
                lo as int,
                hi as int,
            ));
        }
        self.slice(lo, hi)
    }

    /// Skips white space.
    pub fn skip_whitespace(&mut self)
        requires
            old(self).wf(),
        ensures
            final(self).moved_from(old(self)),
            final(self).pos() == after_space(old(self).text(), old(self).pos()),
    {
        let ghost s = self.input@;
        let ghost start = self.position as int;
        while self.position < self.input.len() && char_is_space(self.input[self.position])
            invariant
                self.wf(),
                self.input@ == s,
                start <= self.position,
                forall|i: int| start <= i < self.position ==> is_space(s[i]),
            decreases s.len() - self.position,
        {
            self.advance();
        }
        proof {
            let t = s.subrange(start, s.len() as int);
            assert forall|i: int| 0 <= i < self.position - start implies is_space(t[i]) by {
                assert(t[i] == s[start + i]);
            }
            lemma_lead_count(t, |c: char| is_space(c), self.position - start);
        }
    }

    /// Skips white space, `//` line comments and `/* */` block comments.
    pub fn skip_whitespace_and_comments(&mut self)
        requires
            old(self).wf(),
        ensures
            final(self).moved_from(old(self)),
            final(self).pos() == crate::grammar::g_skip(old(self).text(), old(self).pos()),
            final(self).pos() < final(self).text().len() ==> !is_space(
                final(self).text()[final(self).pos()],
            ),
            !holds_at(final(self).text(), final(self).pos(), "//"@),
            !holds_at(final(self).text(), final(self).pos(), "/*"@),
    {
        let ghost s = self.input@;
        let ghost start = self.position;
        loop
            invariant
                self.wf(),
                self.input@ == s,
                start <= self.position,
                crate::grammar::g_skip(s, start as int) == crate::grammar::g_skip(s, self.position as int),
            ensures
                self.wf(),
                self.input@ == s,
                start <= self.position,
                crate::grammar::g_skip(s, start as int) == self.position,
                self.position < s.len() ==> !is_space(s[self.position as int]),
                !holds_at(s, self.position as int, "//"@),
                !holds_at(s, self.position as int, "/*"@),
            decreases s.len() - self.position,
        {
            let before = self.position;
            self.skip_whitespace();
            let q = self.position;
            proof {
                let t = s.subrange(before as int, s.len() as int);
                crate::text::lemma_lead_count_stop(t, |c: char| is_space(c));
                if self.position < s.len() {
                    assert(t[self.position - before] == s[self.position as int]);
                }
                reveal_strlit("//");
                reveal_strlit("/*");
                reveal_strlit("*/");
            }
            if self.match_str("//") {
                while self.position < self.input.len() && self.input[self.position] != '\n'
                    invariant
                        self.wf(),
                        self.input@ == s,
                        start <= self.position,
                        q + 2 <= self.position,
                        before < self.position,
                        forall|j: int| q + 2 <= j < self.position ==> s[j] != '\n',
                    decreases s.len() - self.position,
                {
                    self.advance();
                }
                proof {
                    crate::grammar::lemma_scan_to(
                        s.len() as int,
                        q + 2,
                        self.position as int,
                        crate::grammar::char_stop(s, '\n'),
                    );
                }
            } else if self.match_str("/*") {
                let ghost body = self.position as int;
                loop
                    invariant_except_break
                        crate::grammar::comment_end(s, body) == crate::grammar::comment_end(
                            s,
                            self.position as int,
                        ),
                    invariant
                        self.wf(),
                        self.input@ == s,
                        start <= self.position,
                        before < self.position,
                        body <= self.position,
                    ensures
                        self.wf(),
                        self.input@ == s,
                        start <= self.position,
                        before < self.position,
                        crate::grammar::comment_end(s, body) == self.position,
                    decreases s.len() - self.position,
                {
                    if self.position >= self.input.len() {
                        break;
                    }
                    if self.match_str("*/") {
                        break;
                    }
                    self.advance();
                }
            } else {
                break;
            }
        }
    }

    /// The next `len` characters, or an empty string if fewer are left.
    pub fn peek_string(&self, len: usize) -> (r: String)
        requires
            self.wf(),
        ensures
            self.pos() + len <= self.text().len() ==> r@ == self.text().subrange(
                self.pos(),
                self.pos() + len,
            ),
            self.pos() + len > self.text().len() ==> r@.len() == 0,
    {
        if len > self.input.len() - self.position {
            return String::new();
        }
        self.slice(self.position, self.position + len)
    }

    /// Whether, after white space, the closing tag `</tag>` follows.
    pub fn check_closing_tag(&self, tag: &str) -> (r: bool)
        requires
            self.wf(),
        ensures
            r == holds_at(self.text(), after_space(self.text(), self.pos()), "</"@ + tag@ + ">"@),
    {
        let ghost s = self.input@;
        let mut q: usize = self.position;
        while q < self.input.len() && char_is_space(self.input[q])
            invariant
                self.wf(),
                self.position <= q <= s.len(),
                s == self.input@,
                forall|i: int| self.position <= i < q ==> is_space(s[i]),
            decreases s.len() - q,
        {
            q = q + 1;
        }
        proof {
            let t = s.subrange(self.position as int, s.len() as int);
            assert forall|i: int| 0 <= i < q - self.position implies is_space(t[i]) by {
                assert(t[i] == s[self.position + i]);
            }
            if q < s.len() {
                assert(t[q - self.position] == s[q as int]);
            }
            lemma_lead_count(t, |c: char| is_space(c), q - self.position);
        }
        let mut w: Vec<char> = Vec::new();
        w.push('<');
        w.push('/');
        let tag_chars = chars_of(tag);
        let mut i: usize = 0;
        while i < tag_chars.len()
            invariant
                i <= tag_chars@.len(),
                w@ == seq!['<', '/'] + tag_chars@.subrange(0, i as int),
            decreases tag_chars@.len() - i,
        {
            w.push(tag_chars[i]);
            i = i + 1;
            assert(w@ =~= seq!['<', '/'] + tag_chars@.subrange(0, i as int));
        }
        w.push('>');
        proof {
            reveal_strlit("</");
            reveal_strlit(">");
            assert(tag_chars@.subrange(0, tag_chars@.len() as int) =~= tag@);
            assert(w@ =~= "</"@ + tag@ + ">"@);
        }
        if w.len() > self.input.len() - q {
            return false;
        }
        let mut j: usize = 0;
        while j < w.len()
            invariant
                q + w@.len() <= s.len(),
                s == self.input@,
                s.len() == self.input.len(),
                q == after_space(s, self.position as int),
                w@ == "</"@ + tag@ + ">"@,
                self.position == self.pos(),
                s == self.text(),
                j <= w@.len(),
                forall|k: int| 0 <= k < j ==> s[q + k] == w@[k],
            decreases w@.len() - j,
        {
            if self.input[q + j] != w[j] {
                assert(s.subrange(q as int, q + w@.len())[j as int] != w@[j as int]);
                return false;
            }
            j = j + 1;
        }
        assert(s.subrange(q as int, q + w@.len()) =~= w@);
        true
    }

    /// Reads an identifier: a letter or `_`, then letters, digits and `_`.
    pub fn parse_identifier(&mut self) -> (r: Result<String, ParseError>)
        requires
            old(self).wf(),
        ensures
            ({
                let g = crate::grammar::g_ident(old(self).text(), old(self).pos());
                &&& (r is Ok) == (g is Ok)
                &&& r is Ok ==> r->Ok_0@ == (g->Ok_0).0 && final(self).pos() == (g->Ok_0).1
                &&& r is Err ==> error_at(old(self).text(), g->Err_0, r->Err_0)
            }),
            final(self).moved_from(old(self)),
            r is Ok == (old(self).pos() < old(self).text().len() && is_ident_start(
                old(self).text()[old(self).pos()],
            )),
            r is Ok ==> final(self).pos() == after_ident(old(self).text(), old(self).pos())
                && r->Ok_0@ == old(self).text().subrange(old(self).pos(), final(self).pos()),
            r is Err ==> final(self).pos() == old(self).pos() && error_at(
                old(self).text(),
                old(self).pos(),
                r->Err_0,
            ),
    {
        if self.position >= self.input.len() || !char_is_ident_start(self.input[self.position]) {
            return Err(self.error("Expected identifier"));
        }
        let ghost s = self.input@;
        let start = self.position;
        while self.position < self.input.len() && char_is_ident(self.input[self.position])
            invariant
                self.wf(),
                self.input@ == s,
                start <= self.position,
                forall|i: int| start <= i < self.position ==> is_ident_char(s[i]),
            decreases s.len() - self.position,
        {
            self.advance();
        }
        proof {
            let t = s.subrange(start as int, s.len() as int);
            assert forall|i: int| 0 <= i < self.position - start implies is_ident_char(t[i]) by {
                assert(t[i] == s[start + i]);
            }
            if self.position < s.len() {
                assert(t[self.position - start] == s[self.position as int]);
            }
            lemma_lead_count(t, |c: char| is_ident_char(c), self.position - start);
        }
        Ok(self.slice(start, self.position))
    }
    /// Reads a string literal in double quotes; `\n`, `\t` and `\r` stand for
    /// control characters and `\c` for `c` otherwise.
    pub fn parse_string_literal(&mut self) -> (r: Result<String, ParseError>)
        requires
            old(self).wf(),
        ensures
            ({
                let g = crate::grammar::g_string(old(self).text(), old(self).pos());
                &&& (r is Ok) == (g is Ok)
                &&& r is Ok ==> r->Ok_0@ == (g->Ok_0).0 && final(self).pos() == (g->Ok_0).1
                &&& r is Err ==> error_at(old(self).text(), g->Err_0, r->Err_0)
            }),
            final(self).moved_from(old(self)),
            ({
                let s = old(self).text();
                let p = old(self).pos();
                &&& r is Ok == (p < s.len() && s[p] == '"' && literal_rest(s, p + 1) is Some)
                &&& r is Ok ==> literal_rest(s, p + 1) == Some((r->Ok_0@, final(self).pos()))
                &&& r is Err ==> located(s, r->Err_0)
            }),
    {
        let ghost s = self.input@;
        let ghost p = self.position as int;
        if !self.match_char('"') {
            return Err(self.error("Expected '\"' to start string literal"));
        }
        let mut value = String::new();
        while self.position < self.input.len() && self.input[self.position] != '"'
            invariant
                self.wf(),
                self.input@ == s,
                p < self.position,
                s == old(self).input@,
                p == old(self).position,
                s[p] == '"',
                literal_rest(s, p + 1) == prepend(value@, literal_rest(s, self.position as int)),
            decreases s.len() - self.position,
        {
            let ch = self.input[self.position];
            if ch == '\\' {
                self.advance();
                if self.position >= self.input.len() {
                    assert(literal_rest(s, self.position - 1) is None);
                    return Err(self.error("Unexpected end of input in string literal"));
                }
                let c = self.input[self.position];
                let escaped = if c == 'n' {
                    '\n'
                } else if c == 't' {
                    '\t'
                } else if c == 'r' {
                    '\r'
                } else {
                    c
                };
                proof {
                    let o = literal_rest(s, self.position + 1);
                    assert(prepend(value@, prepend(seq![escaped], o)) == prepend(value@.push(escaped), o)) by {
                        assert(value@ + seq![escaped] =~= value@.push(escaped));
                        match o {
                            Some((v, e)) => {
                                assert(value@ + (seq![escaped] + v) =~= value@.push(escaped) + v);
                            },
                            None => {},
                        }
                    }
                }
                push_char(&mut value, escaped);
            } else {
                proof {
                    let o = literal_rest(s, self.position + 1);
                    match o {
                        Some((v, e)) => {
                            assert(value@ + (seq![ch] + v) =~= value@.push(ch) + v);
                        },
                        None => {},
                    }
                }
                push_char(&mut value, ch);
            }
            self.advance();
        }
        if !self.match_char('"') {
            return Err(self.error("Expected '\"' to end string literal"));
        }
        assert(value@ + Seq::<char>::empty() =~= value@);
        Ok(value)
    }

    /// Reads a type up to a separator that stands outside square and angle
    /// brackets, and trims it.
    pub fn parse_type(&mut self) -> (r: Result<String, ParseError>)
        requires
            old(self).wf(),
        ensures
            crate::grammar::g_type(old(self).text(), old(self).pos()) == (r->Ok_0@, final(self).pos()),
            final(self).moved_from(old(self)),
            r is Ok,
            first_stop(
                old(self).text(),
                old(self).pos(),
                final(self).pos(),
                crate::grammar::type_stop(old(self).text(), old(self).pos()),
            ),
            r->Ok_0@ == trim(old(self).text().subrange(old(self).pos(), final(self).pos())),
    {
        let ghost s = self.input@;
        let start = self.position;
        let mut brackets: isize = 0;
        let mut angles: isize = 0;
        while self.position < self.input.len()
            invariant
                self.wf(),
                self.input@ == s,
                start <= self.position,
                brackets == depth(s, start as int, self.position as int, '[', ']'),
                angles == depth(s, start as int, self.position as int, '<', '>'),
                forall|j: int| start <= j < self.position ==> !type_stops_at(s, start as int, j),
            ensures
                self.wf(),
                self.input@ == s,
                start <= self.position,
                forall|j: int| start <= j < self.position ==> !type_stops_at(s, start as int, j),
                self.position == s.len() || type_stops_at(s, start as int, self.position as int),
            decreases s.len() - self.position,
        {
            let ch = self.input[self.position];
            if (ch == ',' || ch == '=' || ch == '?' || ch == ')' || ch == '\n' || ch == '}')
                && brackets == 0 && angles == 0 {
                break;
            }
            proof {
                let q = self.position as int;
                lemma_count_bound(s, start as int, q, '[');
                lemma_count_bound(s, start as int, q, ']');
                lemma_count_bound(s, start as int, q, '<');
                lemma_count_bound(s, start as int, q, '>');
            }
            if ch == '[' {
                brackets = brackets + 1;
            } else if ch == ']' {
                brackets = brackets - 1;
            } else if ch == '<' {
                angles = angles + 1;
            } else if ch == '>' {
                angles = angles - 1;
            }
            self.advance();
        }
        proof {
            crate::grammar::lemma_first_stop(s, start as int, self.position as int, crate::grammar::type_stop(s, start as int));
        }
        Ok(self.slice_trimmed(start, self.position))
    }

    /// Reads an expression up to the first of `terminators` that stands at
    /// nesting depth zero, and trims it. Braces, parentheses and square
    /// brackets are counted separately; all three must be balanced.
    pub fn parse_expression_until(&mut self, terminators: &[char]) -> (r: Result<
        String,
        ParseError,
    >)
        requires
            old(self).wf(),
        ensures
            crate::grammar::g_expr(old(self).text(), old(self).pos(), terminators@) == (
                r->Ok_0@,
                final(self).pos(),
            ),
            final(self).moved_from(old(self)),
            r is Ok,
            first_stop(
                old(self).text(),
                old(self).pos(),
                final(self).pos(),
                crate::grammar::expr_stop(old(self).text(), old(self).pos(), terminators@),
            ),
            r->Ok_0@ == trim(old(self).text().subrange(old(self).pos(), final(self).pos())),
    {
        let ghost s = self.input@;
        let start = self.position;
        let mut braces: isize = 0;
        let mut parens: isize = 0;
        let mut brackets: isize = 0;
        while self.position < self.input.len()
            invariant
                self.wf(),
                self.input@ == s,
                start <= self.position,
                braces == depth(s, start as int, self.position as int, '{', '}'),
                parens == depth(s, start as int, self.position as int, '(', ')'),
                brackets == depth(s, start as int, self.position as int, '[', ']'),
                forall|j: int| start <= j < self.position ==> !stops_at(s, start as int, j, terminators@),
            ensures
                self.wf(),
                self.input@ == s,
                start <= self.position,
                forall|j: int| start <= j < self.position ==> !stops_at(s, start as int, j, terminators@),
                self.position == s.len() || stops_at(s, start as int, self.position as int, terminators@),
            decreases s.len() - self.position,
        {
            let ch = self.input[self.position];
            let is_term = contains_char(terminators, ch);
            let stop = braces == 0 && parens == 0 && brackets == 0;
            if is_term && stop {
                break;
            }
            proof {
                let q = self.position as int;
                lemma_count_bound(s, start as int, q, '{');
                lemma_count_bound(s, start as int, q, '}');
                lemma_count_bound(s, start as int, q, '(');
                lemma_count_bound(s, start as int, q, ')');
                lemma_count_bound(s, start as int, q, '[');
                lemma_count_bound(s, start as int, q, ']');
            }
            if ch == '{' {
                braces = braces + 1;
            } else if ch == '}' {
                braces = braces - 1;
            } else if ch == '(' {
                parens = parens + 1;
            } else if ch == ')' {
                parens = parens - 1;
            } else if ch == '[' {
                brackets = brackets + 1;
            } else if ch == ']' {
                brackets = brackets - 1;
            }
            self.advance();
        }
        proof {
            crate::grammar::lemma_first_stop(s, start as int, self.position as int, crate::grammar::expr_stop(s, start as int, terminators@));
        }
        Ok(self.slice_trimmed(start, self.position))
    }
}

/// Whether `c` is one of `cs`.
fn contains_char(cs: &[char], c: char) -> (r: bool)
    ensures
        r == cs@.contains(c),
{
    let mut i: usize = 0;
    while i < cs.len()
        invariant
            i <= cs@.len(),
            forall|j: int| 0 <= j < i ==> cs@[j] != c,
        decreases cs@.len() - i,
    {
        if cs[i] == c {
            return true;
        }
        i = i + 1;
    }
    false
}

impl RuitlParser {
    /// Whether a run of text stops at the current position.
    fn text_stops_here(&self) -> (r: bool)
        requires
            self.wf(),
            self.position < self.input@.len(),
        ensures
            r == text_stops_at(self.input@, self.position as int),
    {
        let c = self.input[self.position];
        c == '<' || c == '{' || c == '@' || c == '}' || self.keyword_here("if")
            || self.keyword_here("for") || self.keyword_here("match") || self.keyword_here("else")
    }

    /// Reads literal text up to a delimiter or a control keyword. A run of
    /// white space only gives empty text; other text is kept as it is.
    pub fn parse_text(&mut self) -> (r: Result<TemplateAst, ParseError>)
        requires
            old(self).wf(),
        ensures
            crate::grammar::g_text(old(self).text(), old(self).pos()) == (
                crate::grammar::ast_v(r->Ok_0),
                final(self).pos(),
            ),
            final(self).moved_from(old(self)),
            first_stop(
                old(self).text(),
                old(self).pos(),
                final(self).pos(),
                crate::grammar::text_stop(old(self).text()),
            ),
            r is Ok,
            r->Ok_0 is Text,
            ({
                let run = old(self).text().subrange(old(self).pos(), final(self).pos());
                r->Ok_0->Text_0@ == if trim(run).len() == 0 {
                    Seq::empty()
                } else {
                    run
                }
            }),
    {
        let ghost s = self.input@;
        let start = self.position;
        while self.position < self.input.len() && !self.text_stops_here()
            invariant
                self.wf(),
                self.input@ == s,
                start <= self.position,
                forall|j: int| start <= j < self.position ==> !text_stops_at(s, j),
            decreases s.len() - self.position,
        {
            self.advance();
        }
        proof {
            crate::grammar::lemma_first_stop(s, start as int, self.position as int, crate::grammar::text_stop(s));
        }
        let trimmed = self.slice_trimmed(start, self.position);
        if trimmed.as_str().unicode_len() == 0 {
            Ok(TemplateAst::Text(String::new()))
        } else {
            Ok(TemplateAst::Text(self.slice(start, self.position)))
        }
    }

    /// Reads a `<!DOCTYPE ...>` declaration through its closing `>` as text.
    pub fn parse_doctype(&mut self) -> (r: Result<TemplateAst, ParseError>)
        requires
            old(self).wf(),
            old(self).pos() < old(self).text().len(),
        ensures
            ({
                let g = crate::grammar::g_doctype(old(self).text(), old(self).pos());
                &&& (r is Ok) == (g is Ok)
                &&& r is Ok ==> crate::grammar::ast_v(r->Ok_0) == (g->Ok_0).0 && final(self).pos() == (g->Ok_0).1
                &&& r is Err ==> error_at(old(self).text(), g->Err_0, r->Err_0)
            }),
            final(self).moved_from(old(self)),
            ({
                let s = old(self).text();
                let p = old(self).pos();
                let closed = exists|j: int| p < j < s.len() && s[j] == '>';
                &&& r is Ok == closed
                &&& r is Ok ==> r->Ok_0 is Text && r->Ok_0->Text_0@ == s.subrange(
                    p,
                    final(self).pos(),
                ) && s[final(self).pos() - 1] == '>' && forall|j: int|
                    p < j < final(self).pos() - 1 ==> s[j] != '>'
                &&& r is Err ==> located(s, r->Err_0)
            }),
    {
        let ghost s = self.input@;
        let start = self.position;
        self.advance();
        while self.position < self.input.len() && self.input[self.position] != '>'
            invariant
                self.wf(),
                self.input@ == s,
                start < self.position,
                forall|j: int| start < j < self.position ==> s[j] != '>',
            decreases s.len() - self.position,
        {
            self.advance();
        }
        proof {
            crate::grammar::lemma_scan_to(s.len() as int, start + 1, self.position as int, crate::grammar::char_stop(s, '>'));
        }
        if self.position >= self.input.len() {
            return Err(self.error("Unterminated DOCTYPE declaration"));
        }
        self.advance();
        Ok(TemplateAst::Text(self.slice(start, self.position)))
    }
}

impl RuitlParser {
    /// Reads `{expr}` as an embedded expression.
    pub fn parse_expression_node(&mut self) -> (r: Result<TemplateAst, ParseError>)
        requires
            old(self).wf(),
        ensures
            ({
                let g = crate::grammar::g_expr_node(old(self).text(), old(self).pos());
                &&& (r is Ok) == (g is Ok)
                &&& r is Ok ==> crate::grammar::ast_v(r->Ok_0) == (g->Ok_0).0 && final(self).pos() == (g->Ok_0).1
                &&& r is Err ==> error_at(old(self).text(), g->Err_0, r->Err_0)
            }),
            final(self).moved_from(old(self)),
            r is Ok ==> final(self).pos() > old(self).pos() && r->Ok_0 is Expression,
            r is Ok ==> ({
                let s = old(self).text();
                let p = old(self).pos();
                let q = final(self).pos() - 1;
                &&& s[p] == '{' && s[q] == '}'
                &&& first_stop(s, p + 1, q, crate::grammar::expr_stop(s, p + 1, seq!['}']))
                &&& r->Ok_0->Expression_0@ == trim(s.subrange(p + 1, q))
            }),
            r is Err ==> located(old(self).text(), r->Err_0),
    {
        if !self.match_char('{') {
            return Err(self.error("Expected '{' to start expression"));
        }
        let terms = ['}'];
        assert(terms@ =~= seq!['}']);
        let expr = self.parse_expression_until(&terms)?;
        if !self.match_char('}') {
            return Err(self.error("Expected '}' to close expression"));
        }
        Ok(TemplateAst::Expression(expr))
    }

    /// Reads one attribute: `name`, `name="value"`, `name={expr}` or
    /// `name?={guard}`. A name alone stands for the static value `true`.
    pub fn parse_attribute(&mut self) -> (r: Result<Attribute, ParseError>)
        requires
            old(self).wf(),
        ensures
            ({
                let g = crate::grammar::g_attribute(old(self).text(), old(self).pos());
                &&& (r is Ok) == (g is Ok)
                &&& r is Ok ==> crate::grammar::attr_v(r->Ok_0) == (g->Ok_0).0 && final(self).pos() == (g->Ok_0).1
                &&& r is Err ==> error_at(old(self).text(), g->Err_0, r->Err_0)
            }),
            final(self).moved_from(old(self)),
            r is Ok ==> final(self).pos() > old(self).pos() && r->Ok_0.name@
                == old(self).text().subrange(
                old(self).pos(),
                after_attr_name(old(self).text(), old(self).pos()),
            ),
            r is Err ==> located(old(self).text(), r->Err_0),
    {
        let name = self.parse_attribute_name()?;
        let conditional = self.match_char('?');
        self.skip_whitespace();
        if !self.match_char('=') {
            return Ok(Attribute { name, value: AttributeValue::Static("true".to_string()) });
        }
        self.skip_whitespace();
        let value = if self.check_char('{') {
            self.advance();
            let terms = ['}'];
            assert(terms@ =~= seq!['}']);
            let expr = self.parse_expression_until(&terms)?;
            if !self.match_char('}') {
                return Err(self.error("Expected '}' to close attribute expression"));
            }
            if conditional {
                AttributeValue::Conditional(expr)
            } else {
                AttributeValue::Expression(expr)
            }
        } else {
            AttributeValue::Static(self.parse_string_literal()?)
        };
        Ok(Attribute { name, value })
    }

    /// Reads a component invocation `@Name(prop: expr, ...)`.
    #[verifier::loop_isolation(false)]
    pub fn parse_component_invocation(&mut self) -> (r: Result<TemplateAst, ParseError>)
        requires
            old(self).wf(),
        ensures
            ({
                let g = crate::grammar::g_invocation(old(self).text(), old(self).pos());
                &&& (r is Ok) == (g is Ok)
                &&& r is Ok ==> crate::grammar::ast_v(r->Ok_0) == (g->Ok_0).0 && final(self).pos() == (g->Ok_0).1
                &&& r is Err ==> error_at(old(self).text(), g->Err_0, r->Err_0)
            }),
            final(self).moved_from(old(self)),
            r is Ok ==> final(self).pos() > old(self).pos() && r->Ok_0 is Component,
            r is Ok ==> old(self).text()[old(self).pos()] == '@' && r->Ok_0->Component_name@
                == old(self).text().subrange(
                old(self).pos() + 1,
                after_ident(old(self).text(), old(self).pos() + 1),
            ),
            r is Err ==> located(old(self).text(), r->Err_0),
    {
        if !self.match_char('@') {
            return Err(self.error("Expected '@' to start component invocation"));
        }
        let name = self.parse_identifier()?;
        self.skip_whitespace();
        if !self.match_char('(') {
            return Err(self.error("Expected '(' after component name"));
        }
        let mut props: Vec<PropValue> = Vec::new();
        self.skip_whitespace();
        let ghost s = self.input@;
        let ghost q_list = self.position as int;
        proof {
            crate::grammar::lemma_prepend_cons(Seq::<crate::grammar::PropValueV>::empty(), arbitrary(), crate::grammar::g_prop_values(s, q_list));
        }
        while !self.check_char(')') && !self.is_at_end()
            invariant
                self.wf(),
                self.input@ == old(self).input@,
                self.input@ == s,
                self.position > old(self).position,
                crate::grammar::g_prop_values(s, q_list) == crate::grammar::prepend_all(
                    crate::grammar::prop_values_v(props@),
                    crate::grammar::g_prop_values(s, self.position as int),
                ),
            decreases self.input@.len() - self.position,
        {
            let ghost q = self.position as int;
            let ghost before = props@;
            let prop_name = self.parse_identifier()?;
            self.skip_whitespace();
            if !self.match_char(':') {
                return Err(self.error("Expected ':' after prop name"));
            }
            self.skip_whitespace();
            let terms = [',', ')'];
            assert(terms@ =~= seq![',', ')']);
            let value = self.parse_expression_until(&terms)?;
            let ghost item = crate::grammar::PropValueV { name: prop_name@, value: value@ };
            props.push(PropValue { name: prop_name, value });
            assert(crate::grammar::prop_values_v(props@) =~= crate::grammar::prop_values_v(before).push(item));
            self.skip_whitespace();
            if self.match_char(',') {
                self.skip_whitespace();
            } else if !self.check_char(')') {
                return Err(self.error("Expected ',' or ')' in component props"));
            }
            proof {
                crate::grammar::lemma_prepend_cons(
                    crate::grammar::prop_values_v(before),
                    item,
                    crate::grammar::g_prop_values(s, self.position as int),
                );
            }
        }
        if !self.match_char(')') {
            return Err(self.error("Expected ')' to close component invocation"));
        }
        Ok(TemplateAst::Component { name, props })
    }
}

impl RuitlParser {
    /// Reads one node of a template body: an element, a DOCTYPE, an
    /// expression, a component invocation, a control construct or text.
    /// Input that yields no node at all is an error.
    #[verifier::loop_isolation(false)]
    pub fn parse_template_node(&mut self) -> (r: Result<TemplateAst, ParseError>)
        requires
            old(self).wf(),
        ensures
            ({
                let g = crate::grammar::g_node(old(self).text(), old(self).pos());
                &&& (r is Ok) == (g is Ok)
                &&& r is Ok ==> crate::grammar::ast_v(r->Ok_0) == (g->Ok_0).0 && final(self).pos() == (g->Ok_0).1
                &&& r is Err ==> error_at(old(self).text(), g->Err_0, r->Err_0)
            }),
            final(self).moved_from(old(self)),
            r is Ok ==> final(self).pos() > old(self).pos(),
            r is Err ==> located(old(self).text(), r->Err_0),
        decreases old(self).left(), 1nat,
    {
        let start = self.position;
        self.skip_whitespace();
        proof {
            reveal_strlit("if");
            reveal_strlit("for");
            reveal_strlit("match");
            reveal_strlit("<!DOCTYPE");
        }
        let r = if self.check_char('<') {
            let head = self.peek_string(9);
            if str_eq(head.as_str(), "<!DOCTYPE") {
                self.parse_doctype()
            } else {
                self.parse_element()
            }
        } else if self.check_char('{') {
            self.parse_expression_node()
        } else if self.check_char('@') {
            self.parse_component_invocation()
        } else if self.match_keyword("if") {
            self.parse_if_statement()
        } else if self.match_keyword("for") {
            self.parse_for_statement()
        } else if self.match_keyword("match") {
            self.parse_match_statement()
        } else {
            self.parse_text()
        };
        match r {
            Ok(node) => {
                if self.position == start {
                    Err(self.error("Unexpected input in template body"))
                } else {
                    Ok(node)
                }
            },
            Err(e) => Err(e),
        }
    }

    /// Reads an element: its tag, its attributes, then either `/>` or `>`,
    /// children up to the matching closing tag, and that tag.
    #[verifier::loop_isolation(false)]
    #[verifier::rlimit(100)]
    pub fn parse_element(&mut self) -> (r: Result<TemplateAst, ParseError>)
        requires
            old(self).wf(),
        ensures
            ({
                let g = crate::grammar::g_element(old(self).text(), old(self).pos());
                &&& (r is Ok) == (g is Ok)
                &&& r is Ok ==> crate::grammar::ast_v(r->Ok_0) == (g->Ok_0).0 && final(self).pos() == (g->Ok_0).1
                &&& r is Err ==> error_at(old(self).text(), g->Err_0, r->Err_0)
            }),
            final(self).moved_from(old(self)),
            r is Ok ==> final(self).pos() > old(self).pos() && r->Ok_0 is Element,
            r is Ok ==> old(self).text()[old(self).pos()] == '<' && r->Ok_0->Element_tag@
                == old(self).text().subrange(
                old(self).pos() + 1,
                after_ident(old(self).text(), old(self).pos() + 1),
            ),
            r is Ok ==> old(self).text()[final(self).pos() - 1] == '>',
            r is Ok && r->Ok_0->Element_self_closing ==> r->Ok_0->Element_children@.len() == 0,
            r is Err ==> located(old(self).text(), r->Err_0),
        decreases old(self).left(), 0nat,
    {
        if !self.match_char('<') {
            return Err(self.error("Expected '<' to start element"));
        }
        let tag = self.parse_identifier()?;
        let mut attributes: Vec<Attribute> = Vec::new();
        self.skip_whitespace();
        let ghost s = self.input@;
        let ghost q_attrs = self.position as int;
        proof {
            crate::grammar::lemma_prepend_cons(Seq::<crate::grammar::AttributeV>::empty(), arbitrary(), crate::grammar::g_attrs(s, q_attrs));
        }
        while !self.check_char('>') && !self.check_char('/') && !self.is_at_end()
            invariant
                self.wf(),
                self.input@ == old(self).input@,
                self.input@ == s,
                self.position > old(self).position,
                crate::grammar::g_attrs(s, q_attrs) == crate::grammar::prepend_all(
                    crate::grammar::attrs_v(attributes@),
                    crate::grammar::g_attrs(s, self.position as int),
                ),
            decreases self.input@.len() - self.position,
        {
            let ghost before = attributes@;
            let attr = self.parse_attribute()?;
            let ghost item = crate::grammar::attr_v(attr);
            attributes.push(attr);
            assert(crate::grammar::attrs_v(attributes@) =~= crate::grammar::attrs_v(before).push(item));
            self.skip_whitespace();
            proof {
                crate::grammar::lemma_prepend_cons(crate::grammar::attrs_v(before), item, crate::grammar::g_attrs(s, self.position as int));
            }
        }
        if self.match_char('/') {
            if !self.match_char('>') {
                return Err(self.error("Expected '>' after '/' in self-closing tag"));
            }
            let children: Vec<TemplateAst> = Vec::new();
            assert(crate::grammar::nodes_v(children@) =~= Seq::<crate::grammar::AstV>::empty());
            return Ok(TemplateAst::Element { tag, attributes, children, self_closing: true });
        }
        if !self.match_char('>') {
            return Err(self.error("Expected '>' to close opening tag"));
        }
        let mut children: Vec<TemplateAst> = Vec::new();
        let ghost q_kids = self.position as int;
        proof {
            reveal_strlit("</");
            reveal_strlit(">");
            crate::grammar::lemma_prepend_cons(Seq::<crate::grammar::AstV>::empty(), arbitrary(), crate::grammar::g_children(s, q_kids, tag@));
        }
        while !self.check_closing_tag(tag.as_str()) && !self.is_at_end()
            invariant
                self.wf(),
                self.input@ == old(self).input@,
                self.input@ == s,
                self.position > old(self).position,
                crate::grammar::g_children(s, q_kids, tag@) == crate::grammar::prepend_all(
                    crate::grammar::nodes_v(children@),
                    crate::grammar::g_children(s, self.position as int, tag@),
                ),
            decreases self.input@.len() - self.position,
        {
            let ghost before = children@;
            let child = self.parse_template_node()?;
            proof {
                crate::grammar::lemma_nodes_v_push(before, child);
            }
            let ghost item = crate::grammar::ast_v(child);
            children.push(child);
            proof {
                crate::grammar::lemma_prepend_cons(crate::grammar::nodes_v(before), item, crate::grammar::g_children(s, self.position as int, tag@));
            }
        }
        self.skip_whitespace();
        let mut closing = String::new();
        push_str(&mut closing, "</");
        push_str(&mut closing, tag.as_str());
        push_str(&mut closing, ">");
        if !self.match_str(closing.as_str()) {
            let mut message = String::new();
            push_str(&mut message, "Expected closing tag '");
            push_str(&mut message, closing.as_str());
            push_str(&mut message, "'");
            return Err(self.error(message.as_str()));
        }
        proof {
            reveal_strlit(">");
            let n = closing@.len() as int;
            assert(closing@[n - 1] == '>');
            assert(self.input@.subrange(self.position - n, self.position as int)[n - 1]
                == self.input@[self.position - 1]);
        }
        Ok(TemplateAst::Element { tag, attributes, children, self_closing: false })
    }

    /// Reads nodes up to a closing `}` or the end. One node stands for
    /// itself; any other number becomes a fragment.
    #[verifier::loop_isolation(false)]
    pub fn parse_template_body(&mut self) -> (r: Result<TemplateAst, ParseError>)
        requires
            old(self).wf(),
        ensures
            ({
                let g = crate::grammar::g_body(old(self).text(), old(self).pos());
                &&& (r is Ok) == (g is Ok)
                &&& r is Ok ==> crate::grammar::ast_v(r->Ok_0) == (g->Ok_0).0 && final(self).pos() == (g->Ok_0).1
                &&& r is Err ==> error_at(old(self).text(), g->Err_0, r->Err_0)
            }),
            final(self).moved_from(old(self)),
            r is Err ==> located(old(self).text(), r->Err_0),
        decreases old(self).left(), 2nat,
    {
        let mut nodes: Vec<TemplateAst> = Vec::new();
        self.skip_whitespace();
        let ghost s = self.input@;
        let ghost q_nodes = self.position as int;
        proof {
            crate::grammar::lemma_prepend_cons(Seq::<crate::grammar::AstV>::empty(), arbitrary(), crate::grammar::g_nodes(s, q_nodes));
        }
        while !self.check_char('}') && !self.is_at_end()
            invariant
                self.wf(),
                self.input@ == old(self).input@,
                self.input@ == s,
                self.position >= old(self).position,
                crate::grammar::g_nodes(s, q_nodes) == crate::grammar::prepend_all(
                    crate::grammar::nodes_v(nodes@),
                    crate::grammar::g_nodes(s, self.position as int),
                ),
            decreases self.input@.len() - self.position,
        {
            let ghost before = nodes@;
            let node = self.parse_template_node()?;
            proof {
                crate::grammar::lemma_nodes_v_push(before, node);
            }
            let ghost item = crate::grammar::ast_v(node);
            nodes.push(node);
            self.skip_whitespace();
            proof {
                crate::grammar::lemma_prepend_cons(crate::grammar::nodes_v(before), item, crate::grammar::g_nodes(s, self.position as int));
            }
        }
        proof {
            crate::grammar::lemma_nodes_v(nodes@);
        }
        if nodes.len() == 1 {
            Ok(nodes.remove(0))
        } else {
            Ok(TemplateAst::Fragment(nodes))
        }
    }

    /// Reads `{ body }`, where the opening brace is the next character after
    /// white space.
    #[verifier::loop_isolation(false)]
    fn parse_block(&mut self, open_message: &str, close_message: &str) -> (r: Result<
        TemplateAst,
        ParseError,
    >)
        requires
            old(self).wf(),
        ensures
            ({
                let g = crate::grammar::g_block(old(self).text(), old(self).pos());
                &&& (r is Ok) == (g is Ok)
                &&& r is Ok ==> crate::grammar::ast_v(r->Ok_0) == (g->Ok_0).0 && final(self).pos() == (g->Ok_0).1
                &&& r is Err ==> error_at(old(self).text(), g->Err_0, r->Err_0)
            }),
            final(self).moved_from(old(self)),
            r is Ok ==> final(self).pos() > old(self).pos(),
            r is Err ==> located(old(self).text(), r->Err_0),
        decreases old(self).left(), 3nat,
    {
        self.skip_whitespace();
        if !self.match_char('{') {
            return Err(self.error(open_message));
        }
        let body = self.parse_template_body()?;
        if !self.match_char('}') {
            return Err(self.error(close_message));
        }
        Ok(body)
    }

    /// Reads the rest of `if condition { ... } [else { ... }]`, after `if`.
    #[verifier::loop_isolation(false)]
    pub fn parse_if_statement(&mut self) -> (r: Result<TemplateAst, ParseError>)
        requires
            old(self).wf(),
        ensures
            ({
                let g = crate::grammar::g_if(old(self).text(), old(self).pos());
                &&& (r is Ok) == (g is Ok)
                &&& r is Ok ==> crate::grammar::ast_v(r->Ok_0) == (g->Ok_0).0 && final(self).pos() == (g->Ok_0).1
                &&& r is Err ==> error_at(old(self).text(), g->Err_0, r->Err_0)
            }),
            final(self).moved_from(old(self)),
            r is Ok ==> r->Ok_0 is If,
            r is Err ==> located(old(self).text(), r->Err_0),
        decreases old(self).left(), 4nat,
    {
        self.skip_whitespace();
        let open_brace = ['{'];
        assert(open_brace@ =~= seq!['{']);
        let condition = self.parse_expression_until(&open_brace)?;
        let then_branch = self.parse_block(
            "Expected '{' after if condition",
            "Expected '}' to close if block",
        )?;
        self.skip_whitespace();
        proof {
            reveal_strlit("else");
        }
        let else_branch = if self.match_keyword("else") {
            let else_body = self.parse_block("Expected '{' after else", "Expected '}' to close else block")?;
            Some(Box::new(else_body))
        } else {
            None
        };
        Ok(TemplateAst::If { condition, then_branch: Box::new(then_branch), else_branch })
    }

    /// Reads the rest of `for item in items { ... }`, after `for`.
    #[verifier::loop_isolation(false)]
    pub fn parse_for_statement(&mut self) -> (r: Result<TemplateAst, ParseError>)
        requires
            old(self).wf(),
        ensures
            ({
                let g = crate::grammar::g_for(old(self).text(), old(self).pos());
                &&& (r is Ok) == (g is Ok)
                &&& r is Ok ==> crate::grammar::ast_v(r->Ok_0) == (g->Ok_0).0 && final(self).pos() == (g->Ok_0).1
                &&& r is Err ==> error_at(old(self).text(), g->Err_0, r->Err_0)
            }),
            final(self).moved_from(old(self)),
            r is Ok ==> r->Ok_0 is For,
            r is Ok ==> ({
                let s = old(self).text();
                let q = after_space(s, old(self).pos());
                r->Ok_0->For_variable@ == s.subrange(q, after_ident(s, q))
            }),
            r is Err ==> located(old(self).text(), r->Err_0),
        decreases old(self).left(), 4nat,
    {
        self.skip_whitespace();
        let variable = self.parse_identifier()?;
        self.skip_whitespace();
        proof {
            reveal_strlit("in");
        }
        if !self.match_keyword("in") {
            return Err(self.error("Expected 'in' after for variable"));
        }
        self.skip_whitespace();
        let open_brace = ['{'];
        assert(open_brace@ =~= seq!['{']);
        let iterable = self.parse_expression_until(&open_brace)?;
        let body = self.parse_block(
            "Expected '{' after for expression",
            "Expected '}' to close for block",
        )?;
        Ok(TemplateAst::For { variable, iterable, body: Box::new(body) })
    }

    /// Reads the rest of `match expr { pattern => { ... } ... }`, after
    /// `match`.
    #[verifier::loop_isolation(false)]
    pub fn parse_match_statement(&mut self) -> (r: Result<TemplateAst, ParseError>)
        requires
            old(self).wf(),
        ensures
            ({
                let g = crate::grammar::g_match(old(self).text(), old(self).pos());
                &&& (r is Ok) == (g is Ok)
                &&& r is Ok ==> crate::grammar::ast_v(r->Ok_0) == (g->Ok_0).0 && final(self).pos() == (g->Ok_0).1
                &&& r is Err ==> error_at(old(self).text(), g->Err_0, r->Err_0)
            }),
            final(self).moved_from(old(self)),
            r is Ok ==> r->Ok_0 is Match,
            r is Err ==> located(old(self).text(), r->Err_0),
        decreases old(self).left(), 4nat,
    {
        self.skip_whitespace();
        let open_brace = ['{'];
        assert(open_brace@ =~= seq!['{']);
        let expression = self.parse_expression_until(&open_brace)?;
        self.skip_whitespace();
        if !self.match_char('{') {
            return Err(self.error("Expected '{' after match expression"));
        }
        let mut arms: Vec<MatchArm> = Vec::new();
        self.skip_whitespace();
        let ghost s = self.input@;
        let ghost q_arms = self.position as int;
        proof {
            reveal_strlit("=>");
            crate::grammar::lemma_prepend_cons(Seq::<crate::grammar::MatchArmV>::empty(), arbitrary(), crate::grammar::g_arms(s, q_arms));
        }
        let equals = ['='];
        assert(equals@ =~= seq!['=']);
        while !self.check_char('}') && !self.is_at_end()
            invariant
                self.wf(),
                self.input@ == old(self).input@,
                self.input@ == s,
                self.position >= old(self).position,
                equals@ == seq!['='],
                crate::grammar::g_arms(s, q_arms) == crate::grammar::prepend_all(
                    crate::grammar::arms_v(arms@),
                    crate::grammar::g_arms(s, self.position as int),
                ),
            decreases self.input@.len() - self.position,
        {
            let ghost before = arms@;
            let pattern = self.parse_expression_until(&equals)?;
            if !self.match_str("=>") {
                return Err(self.error("Expected '=>' after match pattern"));
            }
            let body = self.parse_block("Expected '{' after '=>'", "Expected '}' to close match arm")?;
            let arm = MatchArm { pattern, body };
            proof {
                crate::grammar::lemma_arms_v_push(before, arm);
            }
            let ghost item = crate::grammar::MatchArmV { pattern: arm.pattern@, body: crate::grammar::ast_v(arm.body) };
            arms.push(arm);
            self.skip_whitespace();
            proof {
                crate::grammar::lemma_prepend_cons(crate::grammar::arms_v(before), item, crate::grammar::g_arms(s, self.position as int));
            }
        }
        if !self.match_char('}') {
            return Err(self.error("Expected '}' to close match block"));
        }
        Ok(TemplateAst::Match { expression, arms })
    }
}

impl RuitlParser {
    /// Reads a whole file: imports, components and templates in any order.
    /// The first error ends the parse.
    #[verifier::loop_isolation(false)]
    #[verifier::rlimit(100)]
    #[verifier::spinoff_prover]
    pub fn parse(&mut self) -> (r: Result<RuitlFile, ParseError>)
        requires
            old(self).wf(),
        ensures
            ({
                let g = crate::grammar::g_decls(old(self).text(), crate::grammar::g_skip(old(self).text(), old(self).pos()));
                &&& (r is Ok) == (g is Ok)
                &&& r is Ok ==> crate::grammar::file_v(r->Ok_0) == g->Ok_0
                &&& r is Err ==> error_at(old(self).text(), g->Err_0, r->Err_0)
            }),
            final(self).moved_from(old(self)),
            r is Ok ==> final(self).pos() == final(self).text().len(),
            r is Err ==> located(old(self).text(), r->Err_0),
    {
        let mut components: Vec<ComponentDef> = Vec::new();
        let mut templates: Vec<TemplateDef> = Vec::new();
        let mut imports: Vec<ImportDef> = Vec::new();
        self.skip_whitespace_and_comments();
        let ghost s = self.input@;
        let ghost q_decls = self.position as int;
        proof {
            crate::grammar::lemma_prepend_file(crate::grammar::file_v(RuitlFile { components, templates, imports }), crate::grammar::g_decls(s, q_decls), arbitrary(), arbitrary(), arbitrary());
            assert(crate::grammar::file_v(RuitlFile { components, templates, imports }) =~= crate::grammar::FileV { components: Seq::empty(), templates: Seq::empty(), imports: Seq::empty() });
        }
        let mut file = RuitlFile { components, templates, imports };
        while !self.is_at_end()
            invariant
                self.wf(),
                self.input@ == old(self).input@,
                self.input@ == s,
                self.position >= old(self).position,
                s == old(self).input@,
                q_decls == crate::grammar::g_skip(s, old(self).position as int),
                crate::grammar::g_decls(s, q_decls) == crate::grammar::prepend_file(
                    crate::grammar::file_v(file),
                    crate::grammar::g_decls(s, self.position as int),
                ),
            decreases self.input@.len() - self.position,
        {
            let ghost f0 = crate::grammar::file_v(file);
            self.parse_declaration(&mut file)?;
        }
        proof {
            crate::grammar::lemma_prepend_file(crate::grammar::file_v(file), crate::grammar::g_decls(s, self.position as int), arbitrary(), arbitrary(), arbitrary());
        }
        Ok(file)
    }

    /// Reads one declaration and the white space and comments after it,
    /// adding it to `file`.
    #[verifier::rlimit(100)]
    fn parse_declaration(&mut self, file: &mut RuitlFile) -> (r: Result<(), ParseError>)
        requires
            old(self).wf(),
            old(self).pos() < old(self).text().len(),
        ensures
            final(self).moved_from(old(self)),
            r is Ok ==> final(self).pos() > old(self).pos(),
            ({
                let s = old(self).text();
                let g = crate::grammar::g_decls(s, old(self).pos());
                &&& r is Ok ==> crate::grammar::prepend_file(crate::grammar::file_v(*old(file)), g)
                    == crate::grammar::prepend_file(
                    crate::grammar::file_v(*final(file)),
                    crate::grammar::g_decls(s, final(self).pos()),
                )
                &&& r is Err ==> g is Err && error_at(s, g->Err_0, r->Err_0)
            }),
            r is Err ==> located(old(self).text(), r->Err_0),
    {
        let ghost s = self.input@;
        let ghost f0 = crate::grammar::file_v(*file);
        proof {
            reveal_strlit("import");
            reveal_strlit("component");
            reveal_strlit("ruitl");
        }
        if self.match_keyword("import") {
            let i = self.parse_import()?;
            let ghost iv = crate::grammar::import_v(i);
            file.imports.push(i);
            self.skip_whitespace_and_comments();
            proof {
                crate::grammar::lemma_prepend_file(f0, crate::grammar::g_decls(s, self.position as int), iv, arbitrary(), arbitrary());
                assert(crate::grammar::file_v(*file) =~= crate::grammar::FileV { imports: f0.imports.push(iv), ..f0 });
            }
        } else if self.match_keyword("component") {
            let c = self.parse_component()?;
            let ghost cv = crate::grammar::component_v(c);
            file.components.push(c);
            self.skip_whitespace_and_comments();
            proof {
                crate::grammar::lemma_prepend_file(f0, crate::grammar::g_decls(s, self.position as int), arbitrary(), cv, arbitrary());
                assert(crate::grammar::file_v(*file) =~= crate::grammar::FileV { components: f0.components.push(cv), ..f0 });
            }
        } else if self.match_keyword("ruitl") {
            let t = self.parse_template()?;
            let ghost tv = crate::grammar::template_v(t);
            file.templates.push(t);
            self.skip_whitespace_and_comments();
            proof {
                crate::grammar::lemma_prepend_file(f0, crate::grammar::g_decls(s, self.position as int), arbitrary(), arbitrary(), tv);
                assert(crate::grammar::file_v(*file) =~= crate::grammar::FileV { templates: f0.templates.push(tv), ..f0 });
            }
        } else {
            return Err(self.error("Expected 'import', 'component', or 'ruitl'"));
        }
        Ok(())
    }

    /// Reads the rest of `import "path" { item, ... }`, after `import`.
    #[verifier::loop_isolation(false)]
    pub fn parse_import(&mut self) -> (r: Result<ImportDef, ParseError>)
        requires
            old(self).wf(),
        ensures
            ({
                let g = crate::grammar::g_import(old(self).text(), old(self).pos());
                &&& (r is Ok) == (g is Ok)
                &&& r is Ok ==> crate::grammar::import_v(r->Ok_0) == (g->Ok_0).0 && final(self).pos() == (g->Ok_0).1
                &&& r is Err ==> error_at(old(self).text(), g->Err_0, r->Err_0)
            }),
            final(self).moved_from(old(self)),
            r is Ok ==> ({
                let s = old(self).text();
                let q = after_space(s, old(self).pos());
                literal_rest(s, q + 1) is Some && r->Ok_0.path@ == (literal_rest(s, q + 1)->0).0
            }),
            r is Err ==> located(old(self).text(), r->Err_0),
    {
        proof {
            reveal(crate::grammar::g_import);
        }
        self.skip_whitespace();
        let path = self.parse_string_literal()?;
        self.skip_whitespace();
        if !self.match_char('{') {
            return Err(self.error("Expected '{' after import path"));
        }
        let mut items: Vec<String> = Vec::new();
        self.skip_whitespace();
        let ghost s = self.input@;
        let ghost q_items = self.position as int;
        proof {
            crate::grammar::lemma_prepend_cons(Seq::<Seq<char>>::empty(), arbitrary(), crate::grammar::g_items(s, q_items));
            assert(crate::grammar::strs_v(items@) =~= Seq::<Seq<char>>::empty());
        }
        while !self.check_char('}') && !self.is_at_end()
            invariant
                self.wf(),
                self.input@ == old(self).input@,
                self.input@ == s,
                self.position >= old(self).position,
                crate::grammar::g_items(s, q_items) == crate::grammar::prepend_all(
                    crate::grammar::strs_v(items@),
                    crate::grammar::g_items(s, self.position as int),
                ),
            decreases self.input@.len() - self.position,
        {
            let ghost before = items@;
            let item = self.parse_identifier()?;
            let ghost iv = item@;
            items.push(item);
            assert(crate::grammar::strs_v(items@) =~= crate::grammar::strs_v(before).push(iv));
            self.skip_whitespace();
            if self.match_char(',') {
                self.skip_whitespace();
            } else if !self.check_char('}') {
                return Err(self.error("Expected ',' or '}' in import list"));
            }
            proof {
                crate::grammar::lemma_prepend_cons(crate::grammar::strs_v(before), iv, crate::grammar::g_items(s, self.position as int));
            }
        }
        if !self.match_char('}') {
            return Err(self.error("Expected '}' to close import list"));
        }
        Ok(ImportDef { path, items })
    }

    /// Reads the rest of `component Name { props { ... } }`, after
    /// `component`; the props block may be left out.
    #[verifier::loop_isolation(false)]
    pub fn parse_component(&mut self) -> (r: Result<ComponentDef, ParseError>)
        requires
            old(self).wf(),
        ensures
            ({
                let g = crate::grammar::g_component(old(self).text(), old(self).pos());
                &&& (r is Ok) == (g is Ok)
                &&& r is Ok ==> crate::grammar::component_v(r->Ok_0) == (g->Ok_0).0 && final(self).pos() == (g->Ok_0).1
                &&& r is Err ==> error_at(old(self).text(), g->Err_0, r->Err_0)
            }),
            final(self).moved_from(old(self)),
            r is Ok ==> r->Ok_0.generics@.len() == 0,
            r is Ok ==> ({
                let s = old(self).text();
                let q = after_space(s, old(self).pos());
                r->Ok_0.name@ == s.subrange(q, after_ident(s, q))
            }),
            r is Err ==> located(old(self).text(), r->Err_0),
    {
        proof {
            reveal(crate::grammar::g_component);
        }
        self.skip_whitespace();
        let name = self.parse_identifier()?;
        self.skip_whitespace();
        if !self.match_char('{') {
            return Err(self.error("Expected '{' after component name"));
        }
        self.skip_whitespace_and_comments();
        let mut props: Vec<PropDef> = Vec::new();
        proof {
            reveal_strlit("props");
        }
        if self.match_keyword("props") {
            self.skip_whitespace();
            if !self.match_char('{') {
                return Err(self.error("Expected '{' after 'props'"));
            }
            self.skip_whitespace_and_comments();
            let ghost s = self.input@;
            let ghost q_props = self.position as int;
            proof {
                crate::grammar::lemma_prepend_cons(Seq::<crate::grammar::PropDefV>::empty(), arbitrary(), crate::grammar::g_prop_defs(s, q_props));
                assert(props@.map_values(|p: PropDef| crate::grammar::prop_def_v(p)) =~= Seq::<crate::grammar::PropDefV>::empty());
            }
            while !self.check_char('}') && !self.is_at_end()
                invariant
                    self.wf(),
                    self.input@ == old(self).input@,
                    self.input@ == s,
                    self.position >= old(self).position,
                    crate::grammar::g_prop_defs(s, q_props) == crate::grammar::prepend_all(
                        props@.map_values(|p: PropDef| crate::grammar::prop_def_v(p)),
                        crate::grammar::g_prop_defs(s, self.position as int),
                    ),
                decreases self.input@.len() - self.position,
            {
                let ghost before = props@;
                let d = self.parse_prop_def()?;
                let ghost item = crate::grammar::prop_def_v(d);
                props.push(d);
                assert(props@.map_values(|p: PropDef| crate::grammar::prop_def_v(p)) =~= before.map_values(|p: PropDef| crate::grammar::prop_def_v(p)).push(item));
                self.skip_whitespace_and_comments();
                proof {
                    crate::grammar::lemma_prepend_cons(before.map_values(|p: PropDef| crate::grammar::prop_def_v(p)), item, crate::grammar::g_prop_defs(s, self.position as int));
                }
            }
            if !self.match_char('}') {
                return Err(self.error("Expected '}' to close props block"));
            }
            self.skip_whitespace_and_comments();
        }
        if !self.match_char('}') {
            return Err(self.error("Expected '}' to close component definition"));
        }
        proof {
            if props@.len() == 0 {
                assert(props@.map_values(|p: PropDef| crate::grammar::prop_def_v(p)) =~= Seq::<
                    crate::grammar::PropDefV,
                >::empty());
            }
        }
        Ok(ComponentDef { name, props, generics: Vec::new() })
    }

    /// Reads one property line `name: Type`, followed by `= default` or by
    /// `?` for an optional property, and an optional comma.
    pub fn parse_prop_def(&mut self) -> (r: Result<PropDef, ParseError>)
        requires
            old(self).wf(),
        ensures
            ({
                let g = crate::grammar::g_prop_def(old(self).text(), old(self).pos());
                &&& (r is Ok) == (g is Ok)
                &&& r is Ok ==> crate::grammar::prop_def_v(r->Ok_0) == (g->Ok_0).0 && final(self).pos() == (g->Ok_0).1
                &&& r is Err ==> error_at(old(self).text(), g->Err_0, r->Err_0)
            }),
            final(self).moved_from(old(self)),
            r is Ok ==> final(self).pos() > old(self).pos(),
            r is Ok ==> r->Ok_0.name@ == old(self).text().subrange(
                old(self).pos(),
                after_ident(old(self).text(), old(self).pos()),
            ),
            r is Ok && r->Ok_0.optional ==> r->Ok_0.default_value is None,
            r is Err ==> located(old(self).text(), r->Err_0),
    {
        let name = self.parse_identifier()?;
        self.skip_whitespace();
        if !self.match_char(':') {
            return Err(self.error("Expected ':' after prop name"));
        }
        self.skip_whitespace();
        let prop_type = self.parse_type()?;
        self.skip_whitespace();
        let mut optional = false;
        let mut default_value: Option<String> = None;
        if self.match_char('=') {
            self.skip_whitespace();
            let terms = [',', '\n', '}'];
            assert(terms@ =~= seq![',', '\n', '}']);
            default_value = Some(self.parse_expression_until(&terms)?);
        } else if self.match_char('?') {
            optional = true;
        }
        self.skip_whitespace();
        if self.match_char(',') {
            self.skip_whitespace();
        }
        Ok(PropDef { name, prop_type, optional, default_value })
    }

    /// Reads the rest of `ruitl Name(param: Type, ...) { body }`, after
    /// `ruitl`.
    #[verifier::loop_isolation(false)]
    pub fn parse_template(&mut self) -> (r: Result<TemplateDef, ParseError>)
        requires
            old(self).wf(),
        ensures
            ({
                let g = crate::grammar::g_template(old(self).text(), old(self).pos());
                &&& (r is Ok) == (g is Ok)
                &&& r is Ok ==> crate::grammar::template_v(r->Ok_0) == (g->Ok_0).0 && final(self).pos() == (g->Ok_0).1
                &&& r is Err ==> error_at(old(self).text(), g->Err_0, r->Err_0)
            }),
            final(self).moved_from(old(self)),
            r is Ok ==> ({
                let s = old(self).text();
                let q = after_space(s, old(self).pos());
                r->Ok_0.name@ == s.subrange(q, after_ident(s, q))
            }),
            r is Err ==> located(old(self).text(), r->Err_0),
    {
        proof {
            reveal(crate::grammar::g_template);
        }
        self.skip_whitespace();
        let name = self.parse_identifier()?;
        self.skip_whitespace();
        if !self.match_char('(') {
            return Err(self.error("Expected '(' after template name"));
        }
        let mut params: Vec<ParamDef> = Vec::new();
        self.skip_whitespace();
        let ghost s = self.input@;
        let ghost q_params = self.position as int;
        proof {
            crate::grammar::lemma_prepend_cons(Seq::<crate::grammar::ParamDefV>::empty(), arbitrary(), crate::grammar::g_params(s, q_params));
            assert(params@.map_values(|p: ParamDef| crate::grammar::param_v(p)) =~= Seq::<crate::grammar::ParamDefV>::empty());
        }
        while !self.check_char(')') && !self.is_at_end()
            invariant
                self.wf(),
                self.input@ == old(self).input@,
                self.input@ == s,
                self.position >= old(self).position,
                crate::grammar::g_params(s, q_params) == crate::grammar::prepend_all(
                    params@.map_values(|p: ParamDef| crate::grammar::param_v(p)),
                    crate::grammar::g_params(s, self.position as int),
                ),
            decreases self.input@.len() - self.position,
        {
            let ghost before = params@;
            let param_name = self.parse_identifier()?;
            self.skip_whitespace();
            if !self.match_char(':') {
                return Err(self.error("Expected ':' after parameter name"));
            }
            self.skip_whitespace();
            let param_type = self.parse_type()?;
            let param = ParamDef { name: param_name, param_type };
            let ghost item = crate::grammar::param_v(param);
            params.push(param);
            assert(params@.map_values(|p: ParamDef| crate::grammar::param_v(p)) =~= before.map_values(|p: ParamDef| crate::grammar::param_v(p)).push(item));
            self.skip_whitespace();
            if self.match_char(',') {
                self.skip_whitespace();
            } else if !self.check_char(')') {
                return Err(self.error("Expected ',' or ')' in parameter list"));
            }
            proof {
                crate::grammar::lemma_prepend_cons(before.map_values(|p: ParamDef| crate::grammar::param_v(p)), item, crate::grammar::g_params(s, self.position as int));
            }
        }
        if !self.match_char(')') {
            return Err(self.error("Expected ')' to close parameter list"));
        }
        self.skip_whitespace();
        if !self.match_char('{') {
            return Err(self.error("Expected '{' to start template body"));
        }
        let body = self.parse_template_body()?;
        if !self.match_char('}') {
            return Err(self.error("Expected '}' to close template body"));
        }
        Ok(TemplateDef { name, params, body })
    }
}

impl RuitlParser {
    /// Reads an attribute name: a letter or `_`, then letters, digits, `_`
    /// and `-`.
    pub fn parse_attribute_name(&mut self) -> (r: Result<String, ParseError>)
        requires
            old(self).wf(),
        ensures
            ({
                let g = crate::grammar::g_attr_name(old(self).text(), old(self).pos());
                &&& (r is Ok) == (g is Ok)
                &&& r is Ok ==> r->Ok_0@ == (g->Ok_0).0 && final(self).pos() == (g->Ok_0).1
                &&& r is Err ==> error_at(old(self).text(), g->Err_0, r->Err_0)
            }),
            final(self).moved_from(old(self)),
            r is Ok == (old(self).pos() < old(self).text().len() && is_ident_start(
                old(self).text()[old(self).pos()],
            )),
            r is Ok ==> final(self).pos() == after_attr_name(old(self).text(), old(self).pos())
                && r->Ok_0@ == old(self).text().subrange(old(self).pos(), final(self).pos()),
            r is Err ==> final(self).pos() == old(self).pos() && error_at(
                old(self).text(),
                old(self).pos(),
                r->Err_0,
            ),
    {
        if self.position >= self.input.len() || !char_is_ident_start(self.input[self.position]) {
            return Err(self.error("Expected attribute name"));
        }
        let ghost s = self.input@;
        let start = self.position;
        while self.position < self.input.len() && (char_is_ident(self.input[self.position])
            || self.input[self.position] == '-')
            invariant
                self.wf(),
                self.input@ == s,
                start <= self.position,
                forall|i: int| start <= i < self.position ==> is_attr_name_char(s[i]),
            decreases s.len() - self.position,
        {
            self.advance();
        }
        proof {
            let t = s.subrange(start as int, s.len() as int);
            assert forall|i: int| 0 <= i < self.position - start implies is_attr_name_char(t[i]) by {
                assert(t[i] == s[start + i]);
            }
            if self.position < s.len() {
                assert(t[self.position - start] == s[self.position as int]);
            }
            lemma_lead_count(t, |c: char| is_attr_name_char(c), self.position - start);
        }
        Ok(self.slice(start, self.position))
    }
}

} // verus!
