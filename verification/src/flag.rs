use vstd::prelude::*;

use crate::command::Command;
use crate::errors::AccessError;
use crate::model::CommandView;
use crate::text::FromText;

verus! {

/// The value one resolution call yields, if any: the primary name's first
/// queued value, else the alias's, parsed to the target type. The default
/// applies only when an alias is configured and neither name has a value; a
/// value that is present but does not parse always fails, it never falls
/// back to the default. A primary name with no value and no alias fails
/// outright, default or not.
pub open spec fn resolve_spec<T: FromText>(
    v: CommandView,
    name: Seq<char>,
    alias: Option<Seq<char>>,
    default: Option<T::V>,
) -> Option<T::V> {
    match v.flag_lookup(name) {
        Some(s) => if T::text_ok(s) {
            Some(T::text_view(s))
        } else {
            None
        },
        None => match alias {
            None => None,
            Some(a) => match v.flag_lookup(a) {
                Some(s) => if T::text_ok(s) {
                    Some(T::text_view(s))
                } else {
                    None
                },
                None => default,
            },
        },
    }
}

/// The command one resolution call leaves behind: the first queued value of
/// whichever name supplied the value is consumed; nothing else changes.
pub open spec fn resolve_consumed(
    v: CommandView,
    name: Seq<char>,
    alias: Option<Seq<char>>,
) -> CommandView {
    match v.flag_lookup(name) {
        Some(_) => v.flag_consumed(name),
        None => match alias {
            Some(a) => match v.flag_lookup(a) {
                Some(_) => v.flag_consumed(a),
                None => v,
            },
            None => v,
        },
    }
}

/// A flag configured with an alias and a default, supplied under neither
/// name, resolves to the default and consumes nothing.
pub proof fn lemma_default_when_absent<T: FromText>(
    v: CommandView,
    name: Seq<char>,
    alias: Seq<char>,
    d: T::V,
)
    requires
        v.flag_lookup(name) is None,
        v.flag_lookup(alias) is None,
    ensures
        resolve_spec::<T>(v, name, Some(alias), Some(d)) == Some(d),
        resolve_consumed(v, name, Some(alias)) == v,
{
}

/// A primary value that does not parse as the target type always fails
/// resolution; it never falls back to the default.
pub proof fn lemma_malformed_never_defaults<T: FromText>(
    v: CommandView,
    name: Seq<char>,
    alias: Option<Seq<char>>,
    default: Option<T::V>,
    s: Seq<char>,
)
    requires
        v.flag_lookup(name) == Some(s),
        !T::text_ok(s),
    ensures
        resolve_spec::<T>(v, name, alias, default) is None,
{
}

/// An alias value that does not parse as the target type always fails
/// resolution; it never falls back to the default.
pub proof fn lemma_malformed_alias_never_defaults<T: FromText>(
    v: CommandView,
    name: Seq<char>,
    alias: Seq<char>,
    default: Option<T::V>,
    s: Seq<char>,
)
    requires
        v.flag_lookup(name) is None,
        v.flag_lookup(alias) == Some(s),
        !T::text_ok(s),
    ensures
        resolve_spec::<T>(v, name, Some(alias), default) is None,
{
}

/// A descriptor for one logical flag: a primary name, at most one alias,
/// and an optional default of the target type. It exists only for the
/// duration of one [`Flag::parse`] call.
pub struct Flag<'a, T: FromText> {
    name: &'a str,
    alias: Option<&'a str>,
    default: Option<T>,
}

impl<'a, T: FromText> Flag<'a, T> {
    /// The primary name.
    pub closed spec fn spec_name(&self) -> Seq<char> {
        self.name@
    }

    /// The alias, if one is configured.
    pub closed spec fn spec_alias(&self) -> Option<Seq<char>> {
        match self.alias {
            Some(a) => Some(a@),
            None => None,
        }
    }

    /// The (view of the) default, if one is configured.
    pub closed spec fn spec_default(&self) -> Option<T::V> {
        match self.default {
            Some(d) => Some(d@),
            None => None,
        }
    }

    /// A flag with primary name `name`, no alias and no default.
    pub fn new(name: &'a str) -> (r: Self)
        ensures
            r.spec_name() == name@,
            r.spec_alias() is None,
            r.spec_default() is None,
    {
        Flag { name, alias: None, default: None }
    }

    /// The same flag, also answering to `alias`.
    pub fn alias(self, alias: &'a str) -> (r: Self)
        ensures
            r.spec_name() == self.spec_name(),
            r.spec_alias() == Some(alias@),
            r.spec_default() == self.spec_default(),
    {
        Flag { alias: Some(alias), ..self }
    }

    /// The same flag, resolving to `default` when it is supplied under
    /// neither name (the fallback applies only when an alias is configured
    /// too, as [`resolve_spec`] states).
    pub fn default(self, default: T) -> (r: Self)
        ensures
            r.spec_name() == self.spec_name(),
            r.spec_alias() == self.spec_alias(),
            r.spec_default() == Some(default@),
    {
        Flag { default: Some(default), ..self }
    }

    /// Resolves the flag against `cmd`: pops the primary name's next value,
    /// else the alias's, parses what was found, and falls back to the
    /// default exactly as [`resolve_spec`] says. The error names the flag
    /// (and alias) involved.
    pub fn parse(self, cmd: &mut Command) -> (r: Result<T, AccessError>)
        requires
            old(cmd).wf(),
        ensures
            final(cmd).wf(),
            final(cmd)@ == resolve_consumed(old(cmd)@, self.spec_name(), self.spec_alias()),
            match r {
                Ok(v) => resolve_spec::<T>(
                    old(cmd)@,
                    self.spec_name(),
                    self.spec_alias(),
                    self.spec_default(),
                ) == Some(v@),
                Err(e) => resolve_spec::<T>(
                    old(cmd)@,
                    self.spec_name(),
                    self.spec_alias(),
                    self.spec_default(),
                ) is None && {
                    let primary = old(cmd)@.flag_lookup(self.spec_name());
                    if primary is Some {
                        e matches AccessError::FlagNotParsable { name } && name@
                            == self.spec_name()
                    } else {
                        match self.spec_alias() {
                            None => e matches AccessError::MissingFlag { name } && name@
                                == self.spec_name(),
                            Some(a) => if old(cmd)@.flag_lookup(a) is Some {
                                e matches AccessError::FlagNotParsable { name } && name@ == a
                            } else {
                                e matches AccessError::MissingFlagOrAlias { name, alias }
                                    && name@ == self.spec_name() && alias@ == a
                            },
                        }
                    }
                },
            },
    {
        match cmd.get_next_flag(self.name) {
            Ok(v) => match T::parse_text(v.as_str()) {
                Some(t) => Ok(t),
                None => Err(AccessError::FlagNotParsable { name: self.name.to_owned() }),
            },
            Err(e) => match self.alias {
                None => Err(e),
                Some(a) => match cmd.get_next_flag(a) {
                    Ok(v) => match T::parse_text(v.as_str()) {
                        Some(t) => Ok(t),
                        None => Err(AccessError::FlagNotParsable { name: a.to_owned() }),
                    },
                    Err(_) => match self.default {
                        Some(d) => Ok(d),
                        None => Err(
                            AccessError::MissingFlagOrAlias {
                                name: self.name.to_owned(),
                                alias: a.to_owned(),
                            },
                        ),
                    },
                },
            },
        }
    }
}

} // verus!
