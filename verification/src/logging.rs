//! What is logged: the levels, and how the configured text chooses them.
use vstd::prelude::*;
use crate::text::{
    index_from, split, split_at, str_eq, str_to_lowercase, to_lowercase, trim, trimmed,
};

verus! {

/// How much is logged.
#[derive(Debug, Clone, Copy, PartialEq, Eq, Structural)]
pub enum LogLevel {
    Trace,
    Debug,
    Info,
    Warn,
    Error,
}

/// The level a word in lower case stands for; `Info` for any other word.
pub open spec fn level_of(word: Seq<char>) -> LogLevel {
    if word == "trace"@ {
        LogLevel::Trace
    } else if word == "debug"@ {
        LogLevel::Debug
    } else if word == "warn"@ {
        LogLevel::Warn
    } else if word == "error"@ {
        LogLevel::Error
    } else {
        LogLevel::Info
    }
}

/// The level a word stands for, without regard to case.
pub fn get_log_level(log_level: &str) -> (r: LogLevel)
    ensures
        r == level_of(str_to_lowercase(log_level@)),
{
    let word = to_lowercase(log_level);
    if str_eq(word.as_str(), "trace") {
        LogLevel::Trace
    } else if str_eq(word.as_str(), "debug") {
        LogLevel::Debug
    } else if str_eq(word.as_str(), "warn") {
        LogLevel::Warn
    } else if str_eq(word.as_str(), "error") {
        LogLevel::Error
    } else {
        LogLevel::Info
    }
}

/// The text that chooses the levels: what was given on the command line, else
/// what the environment holds, else what the configuration says, else `info`.
pub fn resolve_log_level(
    user_log_level: Option<&String>,
    env_log_level: Option<String>,
    config_log_level: Option<String>,
) -> (r: String)
    ensures
        r@ == match user_log_level {
            Some(u) => u@,
            None => match env_log_level {
                Some(e) => e@,
                None => match config_log_level {
                    Some(c) => c@,
                    None => "info"@,
                },
            },
        },
{
    match user_log_level {
        Some(u) => u.clone(),
        None => match env_log_level {
            Some(e) => e,
            None => match config_log_level {
                Some(c) => c,
                None => "info".to_owned(),
            },
        },
    }
}

/// A level, for one module or for all.
#[derive(Debug)]
pub struct LogDirective {
    pub module: Option<String>,
    pub level: LogLevel,
}

/// What a directive stands for.
pub ghost struct DirectiveView {
    pub module: Option<Seq<char>>,
    pub level: LogLevel,
}

impl View for LogDirective {
    type V = DirectiveView;

    open spec fn view(&self) -> DirectiveView {
        DirectiveView {
            module: match self.module {
                Some(m) => Some(m@),
                None => None,
            },
            level: self.level,
        }
    }
}

pub open spec fn directives_view(s: Seq<LogDirective>) -> Seq<DirectiveView> {
    s.map_values(|d: LogDirective| d@)
}

/// Whether `ch` occurs in `s`.
pub open spec fn has_char(s: Seq<char>, ch: char) -> bool {
    index_from(s, ch, 0) < s.len()
}

/// The directive one entry of a list stands for: `module=level`, both
/// trimmed, or a level for all.
pub open spec fn directive_of(entry: Seq<char>) -> DirectiveView {
    if has_char(entry, '=') {
        let parts = split_at(entry, '=');
        DirectiveView {
            module: Some(trimmed(parts[0])),
            level: level_of(str_to_lowercase(trimmed(parts[1]))),
        }
    } else {
        DirectiveView { module: None, level: level_of(str_to_lowercase(entry)) }
    }
}

/// The directives a text stands for: where it holds a `=`, one for each of
/// its entries between commas; else one level for all.
pub open spec fn directives_of(text: Seq<char>) -> Seq<DirectiveView> {
    if has_char(text, '=') {
        split_at(text, ',').map_values(|e: Seq<char>| directive_of(e))
    } else {
        seq![DirectiveView { module: None, level: level_of(str_to_lowercase(text)) }]
    }
}

fn contains_char(s: &str, ch: char) -> (r: bool)
    ensures
        r == has_char(s@, ch),
{
    let chars = crate::text::chars_of(s);
    crate::text::find_char(&chars, ch, 0) < chars.len()
}

fn directive(entry: &str) -> (r: LogDirective)
    ensures
        r@ == directive_of(entry@),
{
    if contains_char(entry, '=') {
        let parts = split(entry, '=');
        proof {
            let s = entry@;
            let e = index_from(s, '=', 0);
            crate::text::lemma_index_from_range(s, '=', 0);
            crate::text::lemma_index_from_range(s, '=', e + 1);
            assert(split_at(s, '=') == seq![s.subrange(0, e)] + crate::text::split_from(
                s,
                '=',
                e + 1,
            ));
            assert(crate::text::split_from(s, '=', e + 1).len() >= 1);
            assert(parts@.map_values(|t: String| t@)[0] == parts@[0]@);
            assert(parts@.map_values(|t: String| t@)[1] == parts@[1]@);
        }
        let module = trim(parts[0].as_str());
        let level = get_log_level(trim(parts[1].as_str()).as_str());
        LogDirective { module: Some(module), level }
    } else {
        LogDirective { module: None, level: get_log_level(entry) }
    }
}

/// The directives a text stands for.
pub fn log_directives(log_level: &str) -> (r: Vec<LogDirective>)
    ensures
        directives_view(r@) == directives_of(log_level@),
{
    let mut out: Vec<LogDirective> = Vec::new();
    if contains_char(log_level, '=') {
        let entries = split(log_level, ',');
        let ghost pieces = split_at(log_level@, ',');
        let mut i: usize = 0;
        while i < entries.len()
            invariant
                i <= entries.len(),
                out.len() == i,
                entries@.map_values(|t: String| t@) == pieces,
                forall|j: int| 0 <= j < i ==> (#[trigger] out@[j])@ == directive_of(pieces[j]),
            decreases entries.len() - i,
        {
            assert(pieces[i as int] == entries@[i as int]@);
            out.push(directive(entries[i].as_str()));
            i += 1;
        }
        assert(directives_view(out@) =~= pieces.map_values(|e: Seq<char>| directive_of(e)));
    } else {
        out.push(LogDirective { module: None, level: get_log_level(log_level) });
        assert(directives_view(out@) =~= directives_of(log_level@));
    }
    out
}

} // verus!
