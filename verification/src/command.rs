use std::collections::VecDeque;
use vstd::prelude::*;

use crate::errors::AccessError;
use crate::errors::ParseError;
use crate::lexer::lex_finish;
use crate::lexer::lex_run;
use crate::lexer::parse_spec;
use crate::lexer::Lexer;
use crate::model::CommandView;
use crate::store::flag_keys_unique;
use crate::store::flags_map;
use crate::store::flags_pop_front;
use crate::store::flags_take;
use crate::store::lemma_views_of_drop_first;
use crate::store::strs_contains;
use crate::store::strs_remove;
use crate::store::strs_set;
use crate::store::unique_strs;
use crate::store::views_of;
use crate::store::FlagEntry;
use crate::text::FromText;

verus! {

/// One parsed command: positional arguments in input order, a set of
/// switches, and per-flag value queues. The accessors consume it
/// destructively; drained data is never observed again.
#[derive(Debug, Clone)]
pub struct Command {
    arguments: VecDeque<String>,
    switches: Vec<String>,
    flags: Vec<FlagEntry>,
}

impl View for Command {
    type V = CommandView;

    closed spec fn view(&self) -> CommandView {
        CommandView {
            arguments: views_of(self.arguments@),
            switches: strs_set(self.switches@),
            flags: flags_map(self.flags@),
        }
    }
}

impl Command {
    /// The representation invariant: each switch name and each flag key is
    /// stored once.
    pub closed spec fn wf(&self) -> bool {
        unique_strs(self.switches@) && flag_keys_unique(self.flags@)
    }

    /// Parses one raw command line in a single left-to-right scan, exactly
    /// as [`parse_spec`] says; any lexical error abandons the whole parse.
    pub fn parse(command: String) -> (r: Result<Command, ParseError>)
        ensures
            match r {
                Ok(cmd) => cmd.wf() && parse_spec(command@) == Ok::<CommandView, ParseError>(cmd@),
                Err(e) => parse_spec(command@) == Err::<CommandView, ParseError>(e),
            },
    {
        let s = command.as_str();
        let n = s.unicode_len();
        let mut lx = Lexer::new();
        let mut i: usize = 0;
        while i < n
            invariant
                n == s@.len(),
                s@ == command@,
                i <= n,
                lx.inv(),
                lex_run(command@, i as int, lx@) == parse_spec(command@),
            decreases n - i,
        {
            let c = s.get_char(i);
            match lx.lex_char(c) {
                Ok(()) => {}
                Err(e) => {
                    return Err(e);
                }
            }
            i = i + 1;
        }
        proof {
            assert(lex_run(command@, n as int, lx@) == lex_finish(lx@));
        }
        match lx.finish() {
            Ok(parts) => {
                let cmd = Command { arguments: parts.0, switches: parts.1, flags: parts.2 };
                Ok(cmd)
            }
            Err(e) => Err(e),
        }
    }

    /// Removes and returns every remaining positional argument, in order,
    /// leaving none behind.
    pub fn drain_arguments(&mut self) -> (r: VecDeque<String>)
        ensures
            views_of(r@) == old(self)@.arguments,
            final(self)@ == old(self)@.drained(),
            final(self).wf() == old(self).wf(),
    {
        let ghost a0 = self.arguments@;
        let mut out: VecDeque<String> = VecDeque::new();
        while self.arguments.len() > 0
            invariant
                out@ + self.arguments@ == a0,
                self.switches == old(self).switches,
                self.flags == old(self).flags,
            decreases self.arguments.len(),
        {
            let v = self.arguments.pop_front().unwrap();
            out.push_back(v);
            proof {
                assert(out@ + self.arguments@ =~= a0);
            }
        }
        proof {
            assert(out@ =~= a0);
            assert(views_of(self.arguments@) =~= Seq::<Seq<char>>::empty());
            assert(self@ =~~= old(self)@.drained());
        }
        out
    }

    /// Removes and returns the first remaining positional argument.
    pub fn get_next_argument(&mut self) -> (r: Result<String, AccessError>)
        ensures
            final(self).wf() == old(self).wf(),
            match r {
                Ok(v) => old(self)@.arguments.len() > 0 && v@ == old(self)@.arguments[0] && final(self)@ == (CommandView { arguments: old(self)@.arguments.drop_first(), ..old(self)@ }),
                Err(e) => old(self)@.arguments.len() == 0 && e == AccessError::MissingArgument
                    && final(self)@ == old(self)@,
            },
    {
        let ghost a0 = self.arguments@;
        match self.arguments.pop_front() {
            Some(v) => {
                proof {
                    lemma_views_of_drop_first(a0);
                    assert(self@ =~~= (CommandView {
                        arguments: old(self)@.arguments.drop_first(),
                        ..old(self)@
                    }));
                }
                Ok(v)
            }
            None => Err(AccessError::MissingArgument),
        }
    }

    /// Removes the first remaining positional argument and parses it as a
    /// `T`. A missing argument leaves the command unchanged; one that does
    /// not parse is still consumed.
    pub fn parse_next_argument<T: FromText>(&mut self) -> (r: Result<T, AccessError>)
        ensures
            final(self).wf() == old(self).wf(),
            match r {
                Ok(v) => old(self)@.arguments.len() > 0 && T::text_ok(old(self)@.arguments[0])
                    && v@ == T::text_view(old(self)@.arguments[0]) && final(self)@ == (CommandView {
                    arguments: old(self)@.arguments.drop_first(),
                    ..old(self)@
                }),
                Err(e) => if old(self)@.arguments.len() == 0 {
                    e == AccessError::MissingArgument && final(self)@ == old(self)@
                } else {
                    !T::text_ok(old(self)@.arguments[0]) && e == AccessError::ArgumentNotParsable
                        && final(self)@ == (CommandView {
                        arguments: old(self)@.arguments.drop_first(),
                        ..old(self)@
                    })
                },
            },
    {
        match self.get_next_argument() {
            Ok(v) => match T::parse_text(v.as_str()) {
                Some(t) => Ok(t),
                None => Err(AccessError::ArgumentNotParsable),
            },
            Err(e) => Err(e),
        }
    }

    /// Removes the first remaining positional argument and parses it as a
    /// `T`, as [`Command::parse_next_argument`] does.
    pub fn next_argument<T: FromText>(&mut self) -> (r: Result<T, AccessError>)
        ensures
            final(self).wf() == old(self).wf(),
            match r {
                Ok(v) => old(self)@.arguments.len() > 0 && T::text_ok(old(self)@.arguments[0])
                    && v@ == T::text_view(old(self)@.arguments[0]) && final(self)@ == (CommandView {
                    arguments: old(self)@.arguments.drop_first(),
                    ..old(self)@
                }),
                Err(e) => if old(self)@.arguments.len() == 0 {
                    e == AccessError::MissingArgument && final(self)@ == old(self)@
                } else {
                    !T::text_ok(old(self)@.arguments[0]) && e == AccessError::ArgumentNotParsable
                        && final(self)@ == (CommandView {
                        arguments: old(self)@.arguments.drop_first(),
                        ..old(self)@
                    })
                },
            },
    {
        self.parse_next_argument()
    }

    /// Removes and returns every remaining positional argument, as
    /// [`Command::drain_arguments`] does.
    pub fn get_arguments(&mut self) -> (r: VecDeque<String>)
        ensures
            views_of(r@) == old(self)@.arguments,
            final(self)@ == old(self)@.drained(),
            final(self).wf() == old(self).wf(),
    {
        self.drain_arguments()
    }

    /// Removes and returns the whole value queue of `flag`.
    pub fn drain_flag(&mut self, flag: &str) -> (r: Option<VecDeque<String>>)
        requires
            old(self).wf(),
        ensures
            final(self).wf(),
            match r {
                Some(vals) => old(self)@.flags.contains_key(flag@) && views_of(vals@) == old(self)@.flags[flag@] && final(self)@ == (CommandView {
                    flags: old(self)@.flags.remove(flag@),
                    ..old(self)@
                }),
                None => !old(self)@.flags.contains_key(flag@) && final(self)@ == old(self)@,
            },
    {
        let key = flag.to_owned();
        flags_take(&mut self.flags, &key)
    }

    /// Removes and returns the whole value queue of `flag`, as
    /// [`Command::drain_flag`] does.
    pub fn get_flag(&mut self, flag: &str) -> (r: Option<VecDeque<String>>)
        requires
            old(self).wf(),
        ensures
            final(self).wf(),
            match r {
                Some(vals) => old(self)@.flags.contains_key(flag@) && views_of(vals@) == old(self)@.flags[flag@] && final(self)@ == (CommandView {
                    flags: old(self)@.flags.remove(flag@),
                    ..old(self)@
                }),
                None => !old(self)@.flags.contains_key(flag@) && final(self)@ == old(self)@,
            },
    {
        self.drain_flag(flag)
    }

    /// Removes and returns the first queued value of `flag`; the name keeps
    /// its remaining queue.
    pub fn get_next_flag(&mut self, flag: &str) -> (r: Result<String, AccessError>)
        requires
            old(self).wf(),
        ensures
            final(self).wf(),
            match r {
                Ok(v) => old(self)@.flag_lookup(flag@) == Some(v@) && final(self)@ == old(self)@.flag_consumed(flag@),
                Err(e) => old(self)@.flag_lookup(flag@) is None && (
                e matches AccessError::MissingFlag { name } && name@ == flag@) && final(self)@
                    == old(self)@,
            },
    {
        let key = flag.to_owned();
        match flags_pop_front(&mut self.flags, &key) {
            Some(v) => Ok(v),
            None => Err(AccessError::MissingFlag { name: key }),
        }
    }

    /// Removes the first queued value of `flag` and parses it as a `T`. A
    /// missing value leaves the command unchanged; one that does not parse
    /// is still consumed.
    pub fn parse_next_flag<T: FromText>(&mut self, flag: &str) -> (r: Result<T, AccessError>)
        requires
            old(self).wf(),
        ensures
            final(self).wf(),
            match r {
                Ok(v) => (old(self)@.flag_lookup(flag@) matches Some(s) && T::text_ok(s) && v@
                    == T::text_view(s)) && final(self)@ == old(self)@.flag_consumed(flag@),
                Err(e) => if old(self)@.flag_lookup(flag@) is None {
                    (e matches AccessError::MissingFlag { name } && name@ == flag@) && final(self)@
                        == old(self)@
                } else {
                    (old(self)@.flag_lookup(flag@) matches Some(s) && !T::text_ok(s)) && (
                    e matches AccessError::FlagNotParsable { name } && name@ == flag@) && final(self)@ == old(self)@.flag_consumed(flag@)
                },
            },
    {
        match self.get_next_flag(flag) {
            Ok(v) => match T::parse_text(v.as_str()) {
                Some(t) => Ok(t),
                None => Err(AccessError::FlagNotParsable { name: flag.to_owned() }),
            },
            Err(e) => Err(e),
        }
    }

    /// Removes the first queued value of `flag` and parses it as a `T`, as
    /// [`Command::parse_next_flag`] does.
    pub fn next_flag<T: FromText>(&mut self, flag: &str) -> (r: Result<T, AccessError>)
        requires
            old(self).wf(),
        ensures
            final(self).wf(),
            match r {
                Ok(v) => (old(self)@.flag_lookup(flag@) matches Some(s) && T::text_ok(s) && v@
                    == T::text_view(s)) && final(self)@ == old(self)@.flag_consumed(flag@),
                Err(e) => if old(self)@.flag_lookup(flag@) is None {
                    (e matches AccessError::MissingFlag { name } && name@ == flag@) && final(self)@
                        == old(self)@
                } else {
                    (old(self)@.flag_lookup(flag@) matches Some(s) && !T::text_ok(s)) && (
                    e matches AccessError::FlagNotParsable { name } && name@ == flag@) && final(self)@ == old(self)@.flag_consumed(flag@)
                },
            },
    {
        self.parse_next_flag(flag)
    }

    /// Removes `switch` from the switch set, reporting whether it was there.
    pub fn get_switch(&mut self, switch: &str) -> (r: bool)
        requires
            old(self).wf(),
        ensures
            final(self).wf(),
            r == old(self)@.switches.contains(switch@),
            final(self)@ == (CommandView {
                switches: old(self)@.switches.remove(switch@),
                ..old(self)@
            }),
    {
        let key = switch.to_owned();
        strs_remove(&mut self.switches, &key)
    }

    /// Tests `switch` for membership without consuming anything.
    pub fn check_switch(&mut self, switch: &str) -> (r: bool)
        ensures
            r == old(self)@.switches.contains(switch@),
            *final(self) == *old(self),
    {
        let key = switch.to_owned();
        strs_contains(&self.switches, &key)
    }
}

} // verus!
