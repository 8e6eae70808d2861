use vstd::prelude::*;

verus! {

/// Bit flags that govern how a pattern is compiled.
pub type RegexOptions = u32;

/// Bit flags that govern one search.
pub type SearchOptions = u32;

/// Bit flags naming the operators that a syntax recognises.
pub type SyntaxOperator = u64;

/// Bit flags naming the behaviours of a syntax.
pub type SyntaxBehavior = u32;

pub const REGEX_OPTION_NONE: RegexOptions = 0;

/// Letters match regardless of case.
pub const REGEX_OPTION_IGNORECASE: RegexOptions = 1;

/// Whitespace in the pattern is ignored and `#` starts a comment.
pub const REGEX_OPTION_EXTEND: RegexOptions = 2;

/// `.` also matches a newline.
pub const REGEX_OPTION_MULTILINE: RegexOptions = 4;

pub const REGEX_OPTION_SINGLELINE: RegexOptions = 8;

pub const REGEX_OPTION_FIND_LONGEST: RegexOptions = 16;

pub const REGEX_OPTION_FIND_NOT_EMPTY: RegexOptions = 32;

pub const REGEX_OPTION_NEGATE_SINGLE_LINE: RegexOptions = 64;

pub const REGEX_OPTION_DONT_CAPTURE_GROUP: RegexOptions = 128;

pub const REGEX_OPTION_CAPTURE_GROUP: RegexOptions = 256;

pub const SEARCH_OPTION_NONE: SearchOptions = 0;

pub const SEARCH_OPTION_NOTBOL: SearchOptions = 512;

pub const SEARCH_OPTION_NOTEOL: SearchOptions = 1024;

pub const SYNTAX_OPERATOR_DOT_ANYCHAR: SyntaxOperator = 1u64 << 1;

pub const SYNTAX_OPERATOR_ASTERISK_ZERO_INF: SyntaxOperator = 1u64 << 2;

pub const SYNTAX_OPERATOR_PLUS_ONE_INF: SyntaxOperator = 1u64 << 4;

pub const SYNTAX_OPERATOR_QMARK_ZERO_ONE: SyntaxOperator = 1u64 << 6;

pub const SYNTAX_OPERATOR_BRACE_INTERVAL: SyntaxOperator = 1u64 << 8;

pub const SYNTAX_OPERATOR_VBAR_ALT: SyntaxOperator = 1u64 << 10;

pub const SYNTAX_OPERATOR_LPAREN_SUBEXP: SyntaxOperator = 1u64 << 12;

pub const SYNTAX_OPERATOR_BRACKET_CC: SyntaxOperator = 1u64 << 17;

pub const SYNTAX_OPERATOR_ESC_W_WORD: SyntaxOperator = 1u64 << 18;

pub const SYNTAX_OPERATOR_ESC_D_DIGIT: SyntaxOperator = 1u64 << 22;

pub const SYNTAX_OPERATOR_LINE_ANCHOR: SyntaxOperator = 1u64 << 23;

pub const SYNTAX_OPERATOR_QMARK_NON_GREEDY: SyntaxOperator = 1u64 << 25;

pub const SYNTAX_OPERATOR_QMARK_GROUP_EFFECT: SyntaxOperator = 1u64 << 33;

pub const SYNTAX_OPERATOR_QMARK_LT_NAMED_GROUP: SyntaxOperator = 1u64 << 39;

/// `(?@...)` marks a group whose capture history is recorded.
pub const SYNTAX_OPERATOR_ATMARK_CAPTURE_HISTORY: SyntaxOperator = 1u64 << 42;

pub const SYNTAX_OPERATOR_ESC_P_BRACE_CHAR_PROPERTY: SyntaxOperator = 1u64 << 48;

/// The operators of the Ruby syntax.
pub const SYNTAX_OPERATORS_RUBY: SyntaxOperator = SYNTAX_OPERATOR_DOT_ANYCHAR
    | SYNTAX_OPERATOR_ASTERISK_ZERO_INF | SYNTAX_OPERATOR_PLUS_ONE_INF
    | SYNTAX_OPERATOR_QMARK_ZERO_ONE | SYNTAX_OPERATOR_BRACE_INTERVAL | SYNTAX_OPERATOR_VBAR_ALT
    | SYNTAX_OPERATOR_LPAREN_SUBEXP | SYNTAX_OPERATOR_BRACKET_CC | SYNTAX_OPERATOR_ESC_W_WORD
    | SYNTAX_OPERATOR_ESC_D_DIGIT | SYNTAX_OPERATOR_LINE_ANCHOR | SYNTAX_OPERATOR_QMARK_NON_GREEDY
    | SYNTAX_OPERATOR_QMARK_GROUP_EFFECT | SYNTAX_OPERATOR_QMARK_LT_NAMED_GROUP
    | SYNTAX_OPERATOR_ESC_P_BRACE_CHAR_PROPERTY;

pub const SYNTAX_BEHAVIOR_CAPTURE_ONLY_NAMED_GROUP: SyntaxBehavior = 1u32 << 7;

pub const SYNTAX_BEHAVIOR_ALLOW_MULTIPLEX_DEFINITION_NAME: SyntaxBehavior = 1u32 << 8;

/// The compile settings that the engine itself understands.
#[derive(Clone, Copy, Debug, PartialEq, Eq, Structural)]
pub struct EngineFlags {
    pub ignore_case: bool,
    pub dot_matches_newline: bool,
    pub extended: bool,
    pub line_anchors: bool,
}

/// The engine settings that a set of compile options and a syntax's
/// operators ask for.
pub open spec fn engine_flags_spec(options: RegexOptions, operators: SyntaxOperator) -> EngineFlags {
    EngineFlags {
        ignore_case: options & REGEX_OPTION_IGNORECASE != 0,
        dot_matches_newline: options & REGEX_OPTION_MULTILINE != 0,
        extended: options & REGEX_OPTION_EXTEND != 0,
        line_anchors: operators & SYNTAX_OPERATOR_LINE_ANCHOR != 0,
    }
}

pub fn engine_flags(options: RegexOptions, operators: SyntaxOperator) -> (r: EngineFlags)
    ensures
        r == engine_flags_spec(options, operators),
{
    EngineFlags {
        ignore_case: options & REGEX_OPTION_IGNORECASE != 0,
        dot_matches_newline: options & REGEX_OPTION_MULTILINE != 0,
        extended: options & REGEX_OPTION_EXTEND != 0,
        line_anchors: operators & SYNTAX_OPERATOR_LINE_ANCHOR != 0,
    }
}

} // verus!
