//! A resource-safe interface to a regular-expression engine: compiled
//! patterns, capture regions, captures views, named-group indexes, capture
//! history trees, pattern sets searched together, and match parameters with
//! callout handlers.

mod buffers;
mod callout;
mod captures;
mod error;
mod flags;
mod history;
mod match_param;
mod names;
mod pattern;
mod region;
mod regset;
mod syntax;
mod tree;

pub use buffers::{ByteBuffer, EncodedStringBuffer, Encoding};
pub use callout::{
    dispatch_callout, Callout, CalloutArgs, CalloutIn, CalloutResult, NoCallout, CALLOUT_IN_PROGRESS,
    CALLOUT_IN_RETRACTION, NON_NAME_ID,
};
pub use captures::{Captures, SubCaptures, SubCapturesPos};
pub use error::{
    Error, ErrorKind, ERROR_INVALID_ARGUMENT, ERROR_PATTERN_SYNTAX, ERROR_PATTERN_TOO_BIG,
    MAX_ERROR_MESSAGE_LEN,
};
pub use flags::{
    engine_flags, EngineFlags, RegexOptions, SearchOptions, SyntaxBehavior, SyntaxOperator,
    REGEX_OPTION_CAPTURE_GROUP, REGEX_OPTION_DONT_CAPTURE_GROUP, REGEX_OPTION_EXTEND,
    REGEX_OPTION_FIND_LONGEST, REGEX_OPTION_FIND_NOT_EMPTY, REGEX_OPTION_IGNORECASE,
    REGEX_OPTION_MULTILINE, REGEX_OPTION_NEGATE_SINGLE_LINE, REGEX_OPTION_NONE,
    REGEX_OPTION_SINGLELINE, SEARCH_OPTION_NONE, SEARCH_OPTION_NOTBOL, SEARCH_OPTION_NOTEOL,
    SYNTAX_BEHAVIOR_ALLOW_MULTIPLEX_DEFINITION_NAME, SYNTAX_BEHAVIOR_CAPTURE_ONLY_NAMED_GROUP,
    SYNTAX_OPERATORS_RUBY, SYNTAX_OPERATOR_ASTERISK_ZERO_INF,
    SYNTAX_OPERATOR_ATMARK_CAPTURE_HISTORY, SYNTAX_OPERATOR_BRACE_INTERVAL,
    SYNTAX_OPERATOR_BRACKET_CC, SYNTAX_OPERATOR_DOT_ANYCHAR, SYNTAX_OPERATOR_ESC_D_DIGIT,
    SYNTAX_OPERATOR_ESC_P_BRACE_CHAR_PROPERTY, SYNTAX_OPERATOR_ESC_W_WORD,
    SYNTAX_OPERATOR_LINE_ANCHOR, SYNTAX_OPERATOR_LPAREN_SUBEXP, SYNTAX_OPERATOR_PLUS_ONE_INF,
    SYNTAX_OPERATOR_QMARK_GROUP_EFFECT, SYNTAX_OPERATOR_QMARK_LT_NAMED_GROUP,
    SYNTAX_OPERATOR_QMARK_NON_GREEDY, SYNTAX_OPERATOR_QMARK_ZERO_ONE, SYNTAX_OPERATOR_VBAR_ALT,
};
pub use history::{history_children, scan_history, Scanned};
pub use match_param::MatchParam;
pub use names::{index_names, CaptureNames};
pub use pattern::Regex;
pub use region::Region;
pub use regset::{pick_winner, RegSet, RegSetLead};
pub use syntax::{
    Dialect, MetaChar, MetaCharType, Syntax, INEFFECTIVE_META_CHAR, META_CHAR_ANYCHAR, META_CHAR_ANYCHAR_ANYTIME,
    META_CHAR_ANYTIME, META_CHAR_ESCAPE, META_CHAR_ONE_OR_MORE_TIME, META_CHAR_ZERO_OR_ONE_TIME,
};
pub use tree::{CaptureTreeNode, CaptureTreeNodeIter};
