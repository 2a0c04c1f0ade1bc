//! The decisions of the test runner application: what a message does to the
//! application's state, and what the application has to do next.

use vstd::prelude::*;
use crate::test_runner::TestRunResult;

verus! {

/// A message to the application; `E` is the test environment.
pub enum Msg<E> {
    /// A test run completed, with its result or the error that stopped it.
    TestRunCompleted(Result<TestRunResult, String>),
    /// The user toggled whether a test's output is shown.
    ToggleTestcase { name: String },
    /// The environment changed; the tests have to run again in it.
    RerunTestcases(E),
}

/// What the application has to do after a message.
pub enum Command<E> {
    /// Wait for the next notification of the test watcher.
    ReceiveWatcherNotifications,
    /// Hand the environment to the test watcher, then wait for its next notification.
    UpdateEnvironment(E),
}

/// The state of the application: the latest test run, the latest error, and
/// the tests whose output is collapsed.
pub struct AppModel {
    test_run_result: Option<TestRunResult>,
    latest_test_error: Option<String>,
    collapsed_tests: Vec<String>,
}

/// `set` with `name` toggled: removed where it is a member, added otherwise.
pub open spec fn toggled(set: Set<Seq<char>>, name: Seq<char>) -> Set<Seq<char>> {
    if set.contains(name) {
        set.remove(name)
    } else {
        set.insert(name)
    }
}

/// Toggling a test twice leaves the collapsed tests as they were.
pub proof fn lemma_toggle_twice(set: Set<Seq<char>>, name: Seq<char>)
    ensures
        toggled(toggled(set, name), name) == set,
{
    if set.contains(name) {
        assert(set.remove(name).insert(name) =~= set);
    } else {
        assert(set.insert(name).remove(name) =~= set);
    }
}

/// The views of the strings in `v`.
spec fn views(v: Seq<String>) -> Seq<Seq<char>> {
    v.map_values(|s: String| s@)
}

/// Removes `name` from `names` where it is there, and adds it otherwise.
#[verifier::loop_isolation(false)]
fn toggle_name(names: Vec<String>, name: String) -> (toggled_names: Vec<String>)
    requires
        views(names@).no_duplicates(),
    ensures
        views(toggled_names@).no_duplicates(),
        views(toggled_names@).to_set() == toggled(views(names@).to_set(), name@),
{
    let ghost before = views(names@);
    let mut names = names;
    let mut i: usize = 0;
    while i < names.len()
        invariant
            views(names@) == before,
            before.no_duplicates(),
            i <= before.len(),
            forall|j: int| 0 <= j < i ==> before[j] != name@,
        decreases before.len() - i,
    {
        if names[i] == name {
            names.remove(i);
            proof {
                let after = views(names@);
                assert(after =~= before.remove(i as int));
                assert(before[i as int] == name@);
                assert(before.contains(name@));
                assert forall|x: Seq<char>|
                    #[trigger] after.contains(x) <==> before.contains(x) && x != name@ by {
                    if after.contains(x) {
                        let k = choose|k: int| 0 <= k < after.len() && #[trigger] after[k] == x;
                        if k < i {
                            assert(before[k] == x);
                        } else {
                            assert(before[k + 1] == x);
                        }
                    }
                    if before.contains(x) && x != name@ {
                        let k = choose|k: int| 0 <= k < before.len() && #[trigger] before[k] == x;
                        if k < i {
                            assert(after[k] == x);
                        } else {
                            assert(after[k - 1] == x);
                        }
                    }
                }
                assert(after.to_set() =~= before.to_set().remove(name@));
                assert(after.no_duplicates()) by {
                    assert forall|a: int, b: int|
                        0 <= a < after.len() && 0 <= b < after.len() && a != b implies #[trigger] after[a] != #[trigger] after[b] by {
                        let a0 = if a < i { a } else { a + 1 };
                        let b0 = if b < i { b } else { b + 1 };
                        assert(after[a] == before[a0]);
                        assert(after[b] == before[b0]);
                    }
                }
            }
            return names;
        }
        i = i + 1;
    }
    let ghost pushed = name@;
    names.push(name);
    proof {
        let after = views(names@);
        assert(after =~= before.push(pushed));
        assert(!before.contains(pushed));
        assert forall|x: Seq<char>| #[trigger] after.contains(x) <==> before.contains(x) || x == pushed by {
            if after.contains(x) {
                let k = choose|k: int| 0 <= k < after.len() && #[trigger] after[k] == x;
                if k < before.len() {
                    assert(before[k] == x);
                }
            }
            if before.contains(x) {
                let k = choose|k: int| 0 <= k < before.len() && #[trigger] before[k] == x;
                assert(after[k] == x);
            }
            if x == pushed {
                assert(after[before.len() as int] == x);
            }
        }
        assert(after.to_set() =~= before.to_set().insert(pushed));
        assert(after.no_duplicates()) by {
            assert forall|a: int, b: int|
                0 <= a < after.len() && 0 <= b < after.len() && a != b implies #[trigger] after[a] != #[trigger] after[b] by {
                if a == before.len() {
                    assert(before[b] == after[b]);
                } else if b == before.len() {
                    assert(before[a] == after[a]);
                } else {
                    assert(before[a] == after[a]);
                    assert(before[b] == after[b]);
                }
            }
        }
    }
    names
}

impl AppModel {
    /// The names of the collapsed tests.
    pub closed spec fn collapsed(&self) -> Set<Seq<char>> {
        self.names().to_set()
    }

    spec fn names(&self) -> Seq<Seq<char>> {
        views(self.collapsed_tests@)
    }

    /// The result of the latest completed test run.
    pub closed spec fn spec_test_run_result(&self) -> Option<TestRunResult> {
        self.test_run_result
    }

    /// The error of the latest test run, where it failed after the latest result.
    pub closed spec fn spec_latest_test_error(&self) -> Option<Seq<char>> {
        match self.latest_test_error {
            Some(e) => Some(e@),
            None => None,
        }
    }

    /// Each collapsed test is listed once.
    #[verifier::type_invariant]
    spec fn wf(&self) -> bool {
        self.names().no_duplicates()
    }

    pub fn new() -> (model: Self)
        ensures
            model.collapsed() == Set::<Seq<char>>::empty(),
            model.spec_test_run_result() is None,
            model.spec_latest_test_error() is None,
    {
        let model = AppModel { test_run_result: None, latest_test_error: None, collapsed_tests: Vec::new() };
        proof {
            assert(model.collapsed() =~= Set::<Seq<char>>::empty());
        }
        model
    }

    /// Whether the output of the test `name` is collapsed.
    pub fn is_collapsed(&self, name: &str) -> (collapsed: bool)
        ensures
            collapsed == self.collapsed().contains(name@),
    {
        let owned = name.to_owned();
        let mut i: usize = 0;
        while i < self.collapsed_tests.len()
            invariant
                owned@ == name@,
                i <= self.collapsed_tests@.len(),
                forall|j: int| 0 <= j < i ==> self.collapsed_tests@[j]@ != name@,
            decreases self.collapsed_tests@.len() - i,
        {
            if self.collapsed_tests[i] == owned {
                proof {
                    assert(self.names()[i as int] == name@);
                    assert(self.names().contains(name@));
                }
                return true;
            }
            i = i + 1;
        }
        proof {
            if self.collapsed().contains(name@) {
                let k = choose|k: int| 0 <= k < self.names().len() && #[trigger] self.names()[k] == name@;
                assert(self.collapsed_tests@[k]@ == name@);
            }
        }
        false
    }

    /// The result of the latest completed test run.
    pub fn test_run_result(&self) -> (result: &Option<TestRunResult>)
        ensures
            *result == self.spec_test_run_result(),
    {
        &self.test_run_result
    }

    /// The error of the latest test run, where it failed after the latest result.
    pub fn latest_test_error(&self) -> (error: Option<&String>)
        ensures
            match error {
                Some(e) => self.spec_latest_test_error() == Some(e@),
                None => self.spec_latest_test_error() is None,
            },
    {
        match &self.latest_test_error {
            Some(e) => Some(e),
            None => None,
        }
    }

    fn toggle(&mut self, name: String)
        ensures
            final(self).collapsed() == toggled(old(self).collapsed(), name@),
            final(self).test_run_result == old(self).test_run_result,
            final(self).latest_test_error == old(self).latest_test_error,
    {
        proof {
            use_type_invariant(&*self);
        }
        let mut names: Vec<String> = Vec::new();
        std::mem::swap(&mut names, &mut self.collapsed_tests);
        let names = toggle_name(names, name);
        self.collapsed_tests = names;
    }

    /// Processes a message and returns what has to be done next.
    pub fn update<E>(&mut self, msg: Msg<E>) -> (command: Command<E>)
        ensures
            match msg {
                Msg::TestRunCompleted(Ok(result)) => {
                    &&& final(self).spec_test_run_result() == Some(result)
                    &&& final(self).spec_latest_test_error() is None
                    &&& final(self).collapsed() == old(self).collapsed()
                    &&& command is ReceiveWatcherNotifications
                },
                Msg::TestRunCompleted(Err(e)) => {
                    &&& final(self).spec_test_run_result() == old(self).spec_test_run_result()
                    &&& final(self).spec_latest_test_error() == Some(e@)
                    &&& final(self).collapsed() == old(self).collapsed()
                    &&& command is ReceiveWatcherNotifications
                },
                Msg::ToggleTestcase { name } => {
                    &&& final(self).spec_test_run_result() == old(self).spec_test_run_result()
                    &&& final(self).spec_latest_test_error() == old(self).spec_latest_test_error()
                    &&& final(self).collapsed() == toggled(old(self).collapsed(), name@)
                    &&& command is ReceiveWatcherNotifications
                },
                Msg::RerunTestcases(environment) => {
                    &&& final(self).spec_test_run_result() == old(self).spec_test_run_result()
                    &&& final(self).spec_latest_test_error() == old(self).spec_latest_test_error()
                    &&& final(self).collapsed() == old(self).collapsed()
                    &&& command == Command::UpdateEnvironment(environment)
                },
            },
    {
        proof {
            use_type_invariant(&*self);
        }
        match msg {
            Msg::TestRunCompleted(Ok(result)) => {
                self.test_run_result = Some(result);
                self.latest_test_error = None;
                Command::ReceiveWatcherNotifications
            },
            Msg::TestRunCompleted(Err(e)) => {
                self.latest_test_error = Some(e);
                Command::ReceiveWatcherNotifications
            },
            Msg::ToggleTestcase { name } => {
                self.toggle(name);
                Command::ReceiveWatcherNotifications
            },
            Msg::RerunTestcases(environment) => Command::UpdateEnvironment(environment),
        }
    }
}

} // verus!
