use vstd::prelude::*;

verus! {

/// Clones a vector of strings, keeping every element equal.
pub fn clone_strings(v: &Vec<String>) -> (r: Vec<String>)
    ensures
        r@ == v@,
{
    let mut out: Vec<String> = Vec::new();
    let mut i: usize = 0;
    while i < v.len()
        invariant
            i <= v@.len(),
            out@ == v@.take(i as int),
        decreases v@.len() - i,
    {
        out.push(v[i].clone());
        proof {
            assert(out@ =~= v@.take(i as int + 1));
        }
        i = i + 1;
    }
    proof {
        assert(v@.take(v@.len() as int) =~= v@);
    }
    out
}

/// The sole side-effecting capability of the orchestrator: it runs
/// commands and writes to the controlling terminal. Every multiplexer
/// interaction and the final action go through it, so substituting a
/// scripted double exercises the whole pipeline without a multiplexer.
pub trait Executor: Sized {
    /// The argument vectors of every command run so far, oldest first.
    /// An implementation that does not track them reports none.
    open spec fn history(&self) -> Seq<Seq<Seq<char>>> {
        Seq::<Seq<Seq<char>>>::empty()
    }

    /// Everything written straight to the terminal so far. An
    /// implementation that does not track it reports none.
    open spec fn emitted(&self) -> Seq<Seq<char>> {
        Seq::<Seq<char>>::empty()
    }

    /// Runs `args` as one command, blocking until it finishes, and hands
    /// back its captured standard output. Nothing is promised of the
    /// output: the command may answer anything.
    fn execute(&mut self, args: Vec<String>) -> (out: String)
        ensures
            final(self).history() == old(self).history().push(args.deep_view()),
            final(self).emitted() == old(self).emitted(),
    ;

    /// Writes `s` straight to the terminal, for sequences that must reach
    /// it without running a command.
    fn emit(&mut self, s: &str)
        ensures
            final(self).history() == old(self).history(),
            final(self).emitted() == old(self).emitted().push(s@),
    ;

    /// The argument vector of the most recent command, if any ran.
    fn last_executed(&self) -> (r: Option<Vec<String>>)
        ensures
            match r {
                Some(v) => self.history().len() > 0 && v.deep_view() == self.history().last(),
                None => self.history().len() == 0,
            },
    ;
}

/// A scripted stand-in for the real shell: it records every command and
/// emission, and answers each command with the newest of its remaining
/// seeded outputs — or with an empty string once they run out.
pub struct ScriptedExecutor {
    pub outputs: Vec<String>,
    pub executed: Vec<Vec<String>>,
    pub emissions: Vec<String>,
}

impl ScriptedExecutor {
    /// Seeds the double; outputs are handed out newest-first.
    pub fn new(outputs: Vec<String>) -> (r: ScriptedExecutor)
        ensures
            r.outputs == outputs,
            r.executed@.len() == 0,
            r.emissions@.len() == 0,
    {
        ScriptedExecutor { outputs, executed: Vec::new(), emissions: Vec::new() }
    }
}

impl Executor for ScriptedExecutor {
    open spec fn history(&self) -> Seq<Seq<Seq<char>>> {
        self.executed.deep_view()
    }

    open spec fn emitted(&self) -> Seq<Seq<char>> {
        self.emissions.deep_view()
    }

    fn execute(&mut self, args: Vec<String>) -> (out: String)
        ensures
            old(self).outputs@.len() > 0 ==> out == old(self).outputs@.last()
                && final(self).outputs@ == old(self).outputs@.drop_last(),
            old(self).outputs@.len() == 0 ==> out@ == Seq::<char>::empty()
                && final(self).outputs@ == old(self).outputs@,
    {
        let ghost pre = self.executed.deep_view();
        self.executed.push(args);
        proof {
            assert(self.executed.deep_view() =~= pre.push(args.deep_view()));
            assert(self.emissions.deep_view() =~= old(self).emissions.deep_view());
        }
        match self.outputs.pop() {
            Some(s) => s,
            None => String::new(),
        }
    }

    fn emit(&mut self, s: &str) {
        let ghost pre = self.emissions.deep_view();
        self.emissions.push(String::from_str(s));
        proof {
            assert(self.emissions.deep_view() =~= pre.push(s@));
            assert(self.executed.deep_view() =~= old(self).executed.deep_view());
        }
    }

    fn last_executed(&self) -> (r: Option<Vec<String>>) {
        if self.executed.len() == 0 {
            proof {
                assert(self.executed.deep_view().len() == 0);
            }
            None
        } else {
            let v = clone_strings(&self.executed[self.executed.len() - 1]);
            proof {
                assert(v.deep_view() =~= self.executed.deep_view().last());
            }
            Some(v)
        }
    }
}

} // verus!
