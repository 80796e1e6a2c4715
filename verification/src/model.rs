use vstd::prelude::*;

verus! {

/// The three output buckets of one parsed command, at the mathematical
/// level: arguments in input order, switch names as a set, and a map from
/// flag name to its queued values in input order.
#[verifier::ext_equal]
pub ghost struct CommandView {
    pub arguments: Seq<Seq<char>>,
    pub switches: Set<Seq<char>>,
    pub flags: Map<Seq<char>, Seq<Seq<char>>>,
}

impl CommandView {
    /// A command with nothing in it.
    pub open spec fn empty() -> CommandView {
        CommandView {
            arguments: Seq::empty(),
            switches: Set::empty(),
            flags: Map::empty(),
        }
    }

    /// The first queued value for `name`, if the flag holds one.
    pub open spec fn flag_lookup(self, name: Seq<char>) -> Option<Seq<char>> {
        if self.flags.contains_key(name) && self.flags[name].len() > 0 {
            Some(self.flags[name][0])
        } else {
            None
        }
    }

    /// The command once the first queued value of `name` is consumed. The
    /// name keeps its (possibly empty) queue.
    pub open spec fn flag_consumed(self, name: Seq<char>) -> CommandView {
        CommandView { flags: self.flags.insert(name, self.flags[name].drop_first()), ..self }
    }

    /// Appends one value at the end of a flag's queue, starting a fresh
    /// queue when the name is new.
    pub open spec fn flag_pushed(self, name: Seq<char>, value: Seq<char>) -> CommandView {
        let queue = if self.flags.contains_key(name) {
            self.flags[name]
        } else {
            Seq::empty()
        };
        CommandView { flags: self.flags.insert(name, queue.push(value)), ..self }
    }

    /// Appends one positional argument.
    pub open spec fn arg_pushed(self, value: Seq<char>) -> CommandView {
        CommandView { arguments: self.arguments.push(value), ..self }
    }

    /// Records one switch.
    pub open spec fn switch_pushed(self, name: Seq<char>) -> CommandView {
        CommandView { switches: self.switches.insert(name), ..self }
    }

    /// The command once every positional argument has been drained.
    pub open spec fn drained(self) -> CommandView {
        CommandView { arguments: Seq::empty(), ..self }
    }
}

/// The switch names a short-flag cluster contributes: one single-character
/// name per letter.
pub open spec fn cluster_set(name: Seq<char>) -> Set<Seq<char>>
    decreases name.len(),
{
    if name.len() == 0 {
        Set::empty()
    } else {
        cluster_set(name.drop_last()).insert(seq![name.last()])
    }
}

/// Draining the positional arguments leaves none behind, so a second drain
/// always returns the empty sequence.
pub proof fn lemma_drain_twice(v: CommandView)
    ensures
        v.drained().arguments == Seq::<Seq<char>>::empty(),
        v.drained().drained() == v.drained(),
{
}

} // verus!
