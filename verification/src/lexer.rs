use std::collections::VecDeque;
use vstd::prelude::*;

use crate::errors::ParseError;
use crate::model::cluster_set;
use crate::model::CommandView;
use crate::store::cluster_insert;
use crate::store::flag_keys_unique;
use crate::store::flags_append;
use crate::store::flags_map;
use crate::store::strs_insert;
use crate::store::strs_set;
use crate::store::unique_strs;
use crate::store::views_of;
use crate::store::FlagEntry;
use crate::text::blank_char;
use crate::text::chars_to_string;
use crate::text::is_blank;
use crate::text::is_quote;
use crate::text::push_char;
use crate::text::quote_char;

verus! {

/// Where the scan stands relative to the current token.
#[derive(Debug, Clone, Copy)]
pub enum Mode {
    /// Between tokens, skipping blanks.
    Between,
    /// Directly after a token-opening hyphen.
    Dash,
    /// Directly after two token-opening hyphens.
    DashDash,
    /// Collecting a flag or switch name.
    InName,
    /// After a collected name, awaiting the token that decides switch or flag.
    AfterName,
    /// Collecting a value or positional argument.
    InValue,
}

/// Whether a pending name is a long flag name, a short-flag cluster, or
/// absent altogether.
#[derive(Debug, Clone, Copy)]
pub enum NameKind {
    Plain,
    Long,
    Short,
}

/// The full state of the scan before one more character is read.
#[verifier::ext_equal]
pub ghost struct Lex {
    pub mode: Mode,
    pub kind: NameKind,
    pub name: Seq<char>,
    pub value: Seq<char>,
    pub quote: Option<char>,
    pub esc: bool,
    pub raw: bool,
    pub out: CommandView,
}

/// The state the scan starts in.
pub open spec fn lex_init() -> Lex {
    Lex {
        mode: Mode::Between,
        kind: NameKind::Plain,
        name: Seq::empty(),
        value: Seq::empty(),
        quote: None,
        esc: false,
        raw: false,
        out: CommandView::empty(),
    }
}

/// Commits a pending name as a switch: a long name as itself, a short
/// cluster as one switch per letter.
pub open spec fn switch_committed(st: Lex) -> Lex {
    let out = if st.kind == NameKind::Long {
        st.out.switch_pushed(st.name)
    } else {
        CommandView { switches: st.out.switches.union(cluster_set(st.name)), ..st.out }
    };
    Lex {
        mode: Mode::Between,
        kind: NameKind::Plain,
        name: Seq::empty(),
        value: Seq::empty(),
        quote: None,
        esc: false,
        raw: st.raw,
        out,
    }
}

/// Commits a finished value: a positional argument when no name is pending
/// (always so once the scan is raw), the long name's flag value, or — for a
/// short cluster — the last letter's flag value with the other letters as
/// switches.
pub open spec fn val_committed(st: Lex) -> Lex {
    let out = if st.raw || st.kind == NameKind::Plain {
        st.out.arg_pushed(st.value)
    } else if st.kind == NameKind::Long {
        st.out.flag_pushed(st.name, st.value)
    } else {
        let flagged = st.out.flag_pushed(seq![st.name.last()], st.value);
        CommandView {
            switches: flagged.switches.union(cluster_set(st.name.drop_last())),
            ..flagged
        }
    };
    Lex {
        mode: Mode::Between,
        kind: NameKind::Plain,
        name: Seq::empty(),
        value: Seq::empty(),
        quote: None,
        esc: false,
        raw: st.raw,
        out,
    }
}

/// One character while collecting a value: an escaped character is taken
/// literally; a backslash starts an escape; the matching quote closes the
/// region and ends the token; a quote opens a region; an unquoted blank ends
/// the token; everything else is literal.
pub open spec fn value_char(st: Lex, c: char) -> Lex {
    if st.esc {
        Lex { value: st.value.push(c), esc: false, ..st }
    } else if c == '\\' {
        Lex { esc: true, ..st }
    } else if st.quote == Some(c) {
        val_committed(st)
    } else if is_quote(c) && st.quote is None {
        Lex { quote: Some(c), ..st }
    } else if is_blank(c) && st.quote is None {
        val_committed(st)
    } else {
        Lex { value: st.value.push(c), ..st }
    }
}

/// One step of the scan: what reading `c` does to the state, or the lexical
/// error that abandons the parse.
pub open spec fn lex_step(st: Lex, c: char) -> Result<Lex, ParseError> {
    match st.mode {
        Mode::Between => {
            if is_blank(c) {
                Ok(st)
            } else if c == '-' && !st.raw {
                Ok(Lex { mode: Mode::Dash, ..st })
            } else {
                Ok(
                    value_char(
                        Lex { mode: Mode::InValue, value: Seq::empty(), quote: None, esc: false, ..st },
                        c,
                    ),
                )
            }
        }
        Mode::Dash => {
            if c == '-' {
                Ok(Lex { mode: Mode::DashDash, ..st })
            } else if is_blank(c) {
                Ok(Lex { mode: Mode::AfterName, kind: NameKind::Short, name: Seq::empty(), ..st })
            } else if c == '\\' {
                Err(ParseError::EscapeInName)
            } else if is_quote(c) {
                Err(ParseError::QuoteInName)
            } else {
                Ok(Lex { mode: Mode::InName, kind: NameKind::Short, name: seq![c], ..st })
            }
        }
        Mode::DashDash => {
            if is_blank(c) {
                Ok(
                    Lex {
                        mode: Mode::Between,
                        kind: NameKind::Plain,
                        name: Seq::empty(),
                        raw: true,
                        ..st
                    },
                )
            } else if c == '\\' {
                Err(ParseError::EscapeInName)
            } else if is_quote(c) {
                Err(ParseError::QuoteInName)
            } else if c == '-' {
                Err(ParseError::HyphenAtNameStart)
            } else {
                Ok(Lex { mode: Mode::InName, kind: NameKind::Long, name: seq![c], ..st })
            }
        }
        Mode::InName => {
            if c == '\\' {
                Err(ParseError::EscapeInName)
            } else if is_quote(c) {
                Err(ParseError::QuoteInName)
            } else if c == '-' && st.kind == NameKind::Short {
                Err(ParseError::HyphenInShortName)
            } else if is_blank(c) {
                Ok(Lex { mode: Mode::AfterName, ..st })
            } else {
                Ok(Lex { name: st.name.push(c), ..st })
            }
        }
        Mode::AfterName => {
            if is_blank(c) {
                Ok(st)
            } else if c == '-' {
                Ok(Lex { mode: Mode::Dash, ..switch_committed(st) })
            } else if st.kind == NameKind::Short && st.name.len() == 0 {
                Err(ParseError::EmptyName)
            } else {
                Ok(
                    value_char(
                        Lex { mode: Mode::InValue, value: Seq::empty(), quote: None, esc: false, ..st },
                        c,
                    ),
                )
            }
        }
        Mode::InValue => Ok(value_char(st, c)),
    }
}

/// What the end of the input does to the state: pending names become
/// switches, a pending value is committed, and a dangling name opener, open
/// escape or open quote is a lexical error.
pub open spec fn lex_finish(st: Lex) -> Result<CommandView, ParseError> {
    match st.mode {
        Mode::Between => Ok(st.out),
        Mode::Dash => Err(ParseError::EmptyName),
        Mode::DashDash => Err(ParseError::EmptyName),
        Mode::InName => Ok(switch_committed(st).out),
        Mode::AfterName => Ok(switch_committed(st).out),
        Mode::InValue => {
            if st.esc {
                Err(ParseError::EolAfterEscape)
            } else if st.quote is Some {
                Err(ParseError::UnclosedQuote)
            } else {
                Ok(val_committed(st).out)
            }
        }
    }
}

/// Runs the scan over `s` from position `i` in state `st`.
pub open spec fn lex_run(s: Seq<char>, i: int, st: Lex) -> Result<CommandView, ParseError>
    decreases s.len() - i,
{
    if i < 0 || i >= s.len() {
        lex_finish(st)
    } else {
        match lex_step(st, s[i]) {
            Ok(st2) => lex_run(s, i + 1, st2),
            Err(e) => Err(e),
        }
    }
}

/// What parsing an input yields: the structured command, or the first
/// lexical error met in a single left-to-right scan.
pub open spec fn parse_spec(s: Seq<char>) -> Result<CommandView, ParseError> {
    lex_run(s, 0, lex_init())
}

/// The executable scanner; its abstract state is a [`Lex`].
pub(crate) struct Lexer {
    mode: Mode,
    kind: NameKind,
    name: Vec<char>,
    value: Vec<char>,
    quote: Option<char>,
    esc: bool,
    raw: bool,
    args: VecDeque<String>,
    switches: Vec<String>,
    flags: Vec<FlagEntry>,
}

impl View for Lexer {
    type V = Lex;

    closed spec fn view(&self) -> Lex {
        Lex {
            mode: self.mode,
            kind: self.kind,
            name: self.name@,
            value: self.value@,
            quote: self.quote,
            esc: self.esc,
            raw: self.raw,
            out: CommandView {
                arguments: views_of(self.args@),
                switches: strs_set(self.switches@),
                flags: flags_map(self.flags@),
            },
        }
    }
}

impl Lexer {
    /// The representation stays canonical: switch names and flag keys are
    /// unique, a short name about to take a value is never empty, and
    /// between tokens no name is pending.
    pub closed spec fn inv(&self) -> bool {
        &&& unique_strs(self.switches@)
        &&& flag_keys_unique(self.flags@)
        &&& (self.mode is InValue && self.kind is Short ==> self.name@.len() > 0)
        &&& (self.mode is Between ==> self.kind is Plain)
    }

    pub(crate) fn new() -> (r: Lexer)
        ensures
            r.inv(),
            r@ == lex_init(),
    {
        let r = Lexer {
            mode: Mode::Between,
            kind: NameKind::Plain,
            name: Vec::new(),
            value: Vec::new(),
            quote: None,
            esc: false,
            raw: false,
            args: VecDeque::new(),
            switches: Vec::new(),
            flags: Vec::new(),
        };
        proof {
            assert(views_of(r.args@) =~= Seq::<Seq<char>>::empty());
            assert(strs_set(r.switches@) =~= Set::<Seq<char>>::empty());
            assert(r@ =~~= lex_init());
        }
        r
    }

    /// Commits the pending name as a switch and resets to between-token
    /// state.
    fn commit_switch(&mut self)
        requires
            old(self).inv(),
        ensures
            final(self).inv(),
            final(self)@ == switch_committed(old(self)@),
    {
        match self.kind {
            NameKind::Long => {
                let nm = chars_to_string(&self.name);
                strs_insert(&mut self.switches, nm);
            }
            _ => {
                let n = self.name.len();
                cluster_insert(&mut self.switches, &self.name, n);
                proof {
                    assert(old(self).name@.take(n as int) =~= old(self).name@);
                }
            }
        }
        self.name.clear();
        self.value.clear();
        self.quote = None;
        self.esc = false;
        self.mode = Mode::Between;
        self.kind = NameKind::Plain;
        proof {
            assert(self@ =~~= switch_committed(old(self)@));
        }
    }

    /// Commits the pending value and resets to between-token state.
    fn commit_value(&mut self)
        requires
            old(self).inv(),
            old(self)@.mode is InValue,
        ensures
            final(self).inv(),
            final(self)@ == val_committed(old(self)@),
    {
        let val = chars_to_string(&self.value);
        if self.raw {
            self.args.push_back(val);
        } else {
            match self.kind {
                NameKind::Plain => {
                    self.args.push_back(val);
                }
                NameKind::Long => {
                    let nm = chars_to_string(&self.name);
                    flags_append(&mut self.flags, nm, val);
                }
                NameKind::Short => {
                    let lastc = self.name[self.name.len() - 1];
                    let mut nm = String::new();
                    push_char(&mut nm, lastc);
                    proof {
                        assert(nm@ =~= seq![old(self).name@.last()]);
                    }
                    flags_append(&mut self.flags, nm, val);
                    let n = self.name.len() - 1;
                    cluster_insert(&mut self.switches, &self.name, n);
                    proof {
                        assert(old(self).name@.take(n as int) =~= old(self).name@.drop_last());
                    }
                }
            }
        }
        self.name.clear();
        self.value.clear();
        self.quote = None;
        self.esc = false;
        self.mode = Mode::Between;
        self.kind = NameKind::Plain;
        proof {
            assert(views_of(self.args@) =~= val_committed(old(self)@).out.arguments);
            assert(self@ =~~= val_committed(old(self)@));
        }
    }

    /// Handles one character while collecting a value.
    fn value_step(&mut self, c: char)
        requires
            old(self).inv(),
            old(self)@.mode is InValue,
        ensures
            final(self).inv(),
            final(self)@ == value_char(old(self)@, c),
    {
        if self.esc {
            self.value.push(c);
            self.esc = false;
        } else if c == '\\' {
            self.esc = true;
        } else {
            let closing = match self.quote {
                Some(q) => q == c,
                None => false,
            };
            if closing {
                self.commit_value();
            } else {
                let q = quote_char(c);
                let open = match self.quote {
                    Some(_) => false,
                    None => true,
                };
                if q && open {
                    self.quote = Some(c);
                } else if blank_char(c) && open {
                    self.commit_value();
                } else {
                    self.value.push(c);
                }
            }
        }
    }

    /// Feeds one character of the input to the scanner.
    pub(crate) fn lex_char(&mut self, c: char) -> (r: Result<(), ParseError>)
        requires
            old(self).inv(),
        ensures
            match r {
                Ok(()) => final(self).inv() && lex_step(old(self)@, c) == Ok::<
                    Lex,
                    ParseError,
                >(final(self)@),
                Err(e) => lex_step(old(self)@, c) == Err::<Lex, ParseError>(e),
            },
    {
        match self.mode {
            Mode::Between => {
                if blank_char(c) {
                    Ok(())
                } else if c == '-' && !self.raw {
                    self.mode = Mode::Dash;
                    Ok(())
                } else {
                    self.mode = Mode::InValue;
                    self.value.clear();
                    self.quote = None;
                    self.esc = false;
                    self.value_step(c);
                    Ok(())
                }
            }
            Mode::Dash => {
                if c == '-' {
                    self.mode = Mode::DashDash;
                    Ok(())
                } else if blank_char(c) {
                    self.mode = Mode::AfterName;
                    self.kind = NameKind::Short;
                    self.name.clear();
                    Ok(())
                } else if c == '\\' {
                    Err(ParseError::EscapeInName)
                } else if quote_char(c) {
                    Err(ParseError::QuoteInName)
                } else {
                    self.mode = Mode::InName;
                    self.kind = NameKind::Short;
                    self.name.clear();
                    self.name.push(c);
                    proof {
                        assert(self.name@ =~= seq![c]);
                    }
                    Ok(())
                }
            }
            Mode::DashDash => {
                if blank_char(c) {
                    self.mode = Mode::Between;
                    self.kind = NameKind::Plain;
                    self.name.clear();
                    self.raw = true;
                    Ok(())
                } else if c == '\\' {
                    Err(ParseError::EscapeInName)
                } else if quote_char(c) {
                    Err(ParseError::QuoteInName)
                } else if c == '-' {
                    Err(ParseError::HyphenAtNameStart)
                } else {
                    self.mode = Mode::InName;
                    self.kind = NameKind::Long;
                    self.name.clear();
                    self.name.push(c);
                    proof {
                        assert(self.name@ =~= seq![c]);
                    }
                    Ok(())
                }
            }
            Mode::InName => {
                if c == '\\' {
                    Err(ParseError::EscapeInName)
                } else if quote_char(c) {
                    Err(ParseError::QuoteInName)
                } else if c == '-' && matches!(self.kind, NameKind::Short) {
                    Err(ParseError::HyphenInShortName)
                } else if blank_char(c) {
                    self.mode = Mode::AfterName;
                    Ok(())
                } else {
                    self.name.push(c);
                    Ok(())
                }
            }
            Mode::AfterName => {
                if blank_char(c) {
                    Ok(())
                } else if c == '-' {
                    self.commit_switch();
                    self.mode = Mode::Dash;
                    Ok(())
                } else if matches!(self.kind, NameKind::Short) && self.name.len() == 0 {
                    Err(ParseError::EmptyName)
                } else {
                    self.mode = Mode::InValue;
                    self.value.clear();
                    self.quote = None;
                    self.esc = false;
                    self.value_step(c);
                    Ok(())
                }
            }
            Mode::InValue => {
                self.value_step(c);
                Ok(())
            }
        }
    }

    /// Ends the scan, committing whatever token is still pending.
    pub(crate) fn finish(self) -> (r: Result<
        (VecDeque<String>, Vec<String>, Vec<FlagEntry>),
        ParseError,
    >)
        requires
            self.inv(),
        ensures
            match r {
                Ok(parts) => unique_strs(parts.1@) && flag_keys_unique(parts.2@) && lex_finish(
                    self@,
                ) == Ok::<CommandView, ParseError>(
                    CommandView {
                        arguments: views_of(parts.0@),
                        switches: strs_set(parts.1@),
                        flags: flags_map(parts.2@),
                    },
                ),
                Err(e) => lex_finish(self@) == Err::<CommandView, ParseError>(e),
            },
    {
        let mut me = self;
        match me.mode {
            Mode::Between => Ok((me.args, me.switches, me.flags)),
            Mode::Dash => Err(ParseError::EmptyName),
            Mode::DashDash => Err(ParseError::EmptyName),
            Mode::InName | Mode::AfterName => {
                me.commit_switch();
                Ok((me.args, me.switches, me.flags))
            }
            Mode::InValue => {
                if me.esc {
                    Err(ParseError::EolAfterEscape)
                } else {
                    let open = match me.quote {
                        Some(_) => true,
                        None => false,
                    };
                    if open {
                        Err(ParseError::UnclosedQuote)
                    } else {
                        me.commit_value();
                        Ok((me.args, me.switches, me.flags))
                    }
                }
            }
        }
    }
}

} // verus!
