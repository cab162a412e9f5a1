//! The dependency resolver: from the names of the tasks that were asked
//! for to the records that are to run, in order. A task's dependency is
//! followed one level deep and no further.

use crate::task::{Task, TaskView};
use crate::text::same_text;
use vstd::prelude::*;

verus! {

/// The state of a resolution.
pub struct Resolution {
    /// The records chosen so far, in the order in which they are to run.
    pub tasks: Seq<TaskView>,
    /// The lines of the records that were added as dependencies.
    pub seen: Set<nat>,
    /// Whether a record was found for one of the names asked for.
    pub matched: bool,
}

/// The state before the first name.
pub open spec fn nothing_resolved() -> Resolution {
    Resolution { tasks: Seq::<TaskView>::empty(), seen: Set::<nat>::empty(), matched: false }
}

/// Adds, of the first `n` records, those named `depends` whose line was
/// not added as a dependency before.
pub open spec fn add_dependencies(
    all: Seq<TaskView>,
    depends: Seq<char>,
    n: int,
    acc: Resolution,
) -> Resolution
    decreases n,
{
    if n <= 0 {
        acc
    } else {
        let before = add_dependencies(all, depends, n - 1, acc);
        let record = all[n - 1];
        if record.name == depends && !before.seen.contains(record.line) {
            Resolution {
                tasks: before.tasks.push(record),
                seen: before.seen.insert(record.line),
                ..before
            }
        } else {
            before
        }
    }
}

/// Adds, of the first `n` records, those named `name`: each one after the
/// records of its dependency that were not added before, and each one every
/// time.
pub open spec fn add_records(all: Seq<TaskView>, name: Seq<char>, n: int, acc: Resolution) -> Resolution
    decreases n,
{
    if n <= 0 {
        acc
    } else {
        let before = add_records(all, name, n - 1, acc);
        let record = all[n - 1];
        if record.name == name {
            let ready = if record.depends.len() > 0 {
                add_dependencies(all, record.depends, all.len() as int, before)
            } else {
                before
            };
            Resolution { tasks: ready.tasks.push(record), matched: true, ..ready }
        } else {
            before
        }
    }
}

/// The state after the first `n` of the names asked for.
pub open spec fn resolve_requests(all: Seq<TaskView>, requested: Seq<Seq<char>>, n: int) -> Resolution
    decreases n,
{
    if n <= 0 {
        nothing_resolved()
    } else {
        add_records(
            all,
            requested[n - 1],
            all.len() as int,
            resolve_requests(all, requested, n - 1),
        )
    }
}

/// The name that a failed resolution reports: the last one asked for.
pub open spec fn reported_name(requested: Seq<Seq<char>>) -> Seq<char> {
    if requested.len() > 0 {
        requested.last()
    } else {
        Seq::<char>::empty()
    }
}

/// The records to run for the names asked for, or the name to report where
/// no record was found for any of them. One name that has a record is
/// enough: a name without a record is then passed over.
pub open spec fn resolution(requested: Seq<Seq<char>>, all: Seq<TaskView>) -> Result<
    Seq<TaskView>,
    Seq<char>,
> {
    let state = resolve_requests(all, requested, requested.len() as int);
    if state.matched {
        Ok(state.tasks)
    } else {
        Err(reported_name(requested))
    }
}

/// Whether one of the first `n` names asked for is the name of a record.
pub open spec fn some_name_known(requested: Seq<Seq<char>>, all: Seq<TaskView>, n: int) -> bool {
    exists|i: int, j: int|
        0 <= i < n && i < requested.len() && 0 <= j < all.len() && (#[trigger] requested[i]) == (
        #[trigger] all[j]).name
}

/// Adding dependencies does not change whether a record was found.
pub proof fn lemma_dependencies_keep_matched(
    all: Seq<TaskView>,
    depends: Seq<char>,
    n: int,
    acc: Resolution,
)
    ensures
        add_dependencies(all, depends, n, acc).matched == acc.matched,
    decreases n,
{
    if n > 0 {
        lemma_dependencies_keep_matched(all, depends, n - 1, acc);
    }
}

/// After the records of a name were added, a record was found exactly
/// where one was found before or one of the records has the name.
pub proof fn lemma_records_matched(all: Seq<TaskView>, name: Seq<char>, n: int, acc: Resolution)
    requires
        n <= all.len(),
    ensures
        add_records(all, name, n, acc).matched == (acc.matched || exists|j: int|
            0 <= j < n && (#[trigger] all[j]).name == name),
    decreases n,
{
    if n > 0 {
        lemma_records_matched(all, name, n - 1, acc);
        let before = add_records(all, name, n - 1, acc);
        if all[n - 1].name == name {
            if all[n - 1].depends.len() > 0 {
                lemma_dependencies_keep_matched(all, all[n - 1].depends, all.len() as int, before);
            }
        } else {
            if exists|j: int| 0 <= j < n && (#[trigger] all[j]).name == name {
                let j = choose|j: int| 0 <= j < n && (#[trigger] all[j]).name == name;
                assert(j < n - 1);
            }
        }
    }
}

/// A resolution succeeds exactly where one of the names asked for is the
/// name of a record.
pub proof fn lemma_resolution_succeeds(requested: Seq<Seq<char>>, all: Seq<TaskView>, n: int)
    requires
        n <= requested.len(),
    ensures
        resolve_requests(all, requested, n).matched == some_name_known(requested, all, n),
    decreases n,
{
    if n > 0 {
        lemma_resolution_succeeds(requested, all, n - 1);
        let before = resolve_requests(all, requested, n - 1);
        lemma_records_matched(all, requested[n - 1], all.len() as int, before);
        if some_name_known(requested, all, n) {
            let (i, j) = choose|i: int, j: int|
                0 <= i < n && i < requested.len() && 0 <= j < all.len() && (
                #[trigger] requested[i]) == (#[trigger] all[j]).name;
            if i < n - 1 {
                assert(some_name_known(requested, all, n - 1));
            } else {
                assert(all[j].name == requested[n - 1]);
            }
        }
        if exists|j: int| 0 <= j < all.len() && (#[trigger] all[j]).name == requested[n - 1] {
            let j = choose|j: int|
                0 <= j < all.len() && (#[trigger] all[j]).name == requested[n - 1];
            assert(requested[n - 1] == all[j].name);
        }
        if some_name_known(requested, all, n - 1) {
            let (i, j) = choose|i: int, j: int|
                0 <= i < n - 1 && i < requested.len() && 0 <= j < all.len() && (
                #[trigger] requested[i]) == (#[trigger] all[j]).name;
            assert(requested[i] == all[j].name);
        }
    }
}

/// The records named `name` among the first `n`, in file order.
pub open spec fn records_named(all: Seq<TaskView>, name: Seq<char>, n: int) -> Seq<TaskView>
    decreases n,
{
    if n <= 0 {
        Seq::<TaskView>::empty()
    } else if all[n - 1].name == name {
        records_named(all, name, n - 1).push(all[n - 1])
    } else {
        records_named(all, name, n - 1)
    }
}

/// Whether the record at index `i` is named `name` and no earlier record
/// of that name comes from its line.
pub open spec fn first_of_line(all: Seq<TaskView>, name: Seq<char>, i: int) -> bool {
    all[i].name == name && forall|j: int|
        0 <= j < i && (#[trigger] all[j]).name == name ==> all[j].line != all[i].line
}

/// The records named `name` among the first `n`, in file order, each line
/// once: of the records that come from one line the first is kept.
pub open spec fn lines_once(all: Seq<TaskView>, name: Seq<char>, n: int) -> Seq<TaskView>
    decreases n,
{
    if n <= 0 {
        Seq::<TaskView>::empty()
    } else if first_of_line(all, name, n - 1) {
        lines_once(all, name, n - 1).push(all[n - 1])
    } else {
        lines_once(all, name, n - 1)
    }
}

/// The lines that the records named `name` among the first `n` come from.
pub open spec fn lines_named(all: Seq<TaskView>, name: Seq<char>, n: int) -> Set<nat> {
    Set::new(
        |l: nat| exists|j: int| 0 <= j < n && (#[trigger] all[j]).name == name && all[j].line == l,
    )
}

/// No two records of [`lines_once`] come from the same line, and each
/// comes from a line of a record of that name.
pub proof fn lemma_lines_once(all: Seq<TaskView>, name: Seq<char>, n: int)
    requires
        0 <= n <= all.len(),
    ensures
        forall|a: int|
            0 <= a < lines_once(all, name, n).len() ==> lines_named(all, name, n).contains(
                (#[trigger] lines_once(all, name, n)[a]).line,
            ),
        forall|a: int, b: int|
            0 <= a < b < lines_once(all, name, n).len() ==> (#[trigger] lines_once(
                all,
                name,
                n,
            )[a]).line != (#[trigger] lines_once(all, name, n)[b]).line,
    decreases n,
{
    if n > 0 {
        lemma_lines_once(all, name, n - 1);
        let before = lines_once(all, name, n - 1);
        let now = lines_once(all, name, n);
        assert forall|a: int| 0 <= a < now.len() implies lines_named(all, name, n).contains(
            (#[trigger] now[a]).line,
        ) by {
            if a < before.len() {
                assert(now[a] == before[a]);
                assert(lines_named(all, name, n - 1).contains(before[a].line));
                let j = choose|j: int|
                    0 <= j < n - 1 && (#[trigger] all[j]).name == name && all[j].line
                        == before[a].line;
                assert(all[j].name == name && all[j].line == now[a].line);
            } else {
                assert(all[n - 1].name == name && all[n - 1].line == now[a].line);
            }
        }
        assert forall|a: int, b: int| 0 <= a < b < now.len() implies (#[trigger] now[a]).line != (
        #[trigger] now[b]).line by {
            if b < before.len() {
                assert(now[a] == before[a] && now[b] == before[b]);
            } else {
                assert(now[a] == before[a]);
                assert(lines_named(all, name, n - 1).contains(before[a].line));
            }
        }
    }
}

/// From a state that has seen no line, adding the dependencies named
/// `depends` adds the records of that name, each line once.
pub proof fn lemma_dependencies_first_time(
    all: Seq<TaskView>,
    depends: Seq<char>,
    n: int,
    acc: Resolution,
)
    requires
        0 <= n <= all.len(),
        acc.seen == Set::<nat>::empty(),
    ensures
        add_dependencies(all, depends, n, acc).tasks == acc.tasks + lines_once(all, depends, n),
        add_dependencies(all, depends, n, acc).seen == lines_named(all, depends, n),
        add_dependencies(all, depends, n, acc).matched == acc.matched,
    decreases n,
{
    if n <= 0 {
        assert(acc.tasks + lines_once(all, depends, n) =~= acc.tasks);
        assert(lines_named(all, depends, n) =~= Set::<nat>::empty());
    } else {
        lemma_dependencies_first_time(all, depends, n - 1, acc);
        let before = add_dependencies(all, depends, n - 1, acc);
        let record = all[n - 1];
        if record.name == depends {
            if before.seen.contains(record.line) {
                let j = choose|j: int|
                    0 <= j < n - 1 && (#[trigger] all[j]).name == depends && all[j].line
                        == record.line;
                assert(!first_of_line(all, depends, n - 1));
                assert(lines_named(all, depends, n) =~= before.seen);
            } else {
                assert(first_of_line(all, depends, n - 1)) by {
                    assert forall|j: int|
                        0 <= j < n - 1 && (#[trigger] all[j]).name == depends implies all[j].line
                        != record.line by {
                        assert(lines_named(all, depends, n - 1).contains(all[j].line));
                    }
                }
                assert(acc.tasks + lines_once(all, depends, n) =~= (acc.tasks + lines_once(
                    all,
                    depends,
                    n - 1,
                )).push(record));
                assert(lines_named(all, depends, n) =~= before.seen.insert(record.line));
            }
        } else {
            assert(lines_named(all, depends, n) =~= before.seen);
        }
    }
}

/// Where the line of every record named `depends` was seen, adding the
/// dependencies of that name adds nothing.
pub proof fn lemma_dependencies_second_time(
    all: Seq<TaskView>,
    depends: Seq<char>,
    n: int,
    acc: Resolution,
)
    requires
        0 <= n <= all.len(),
        acc.seen == lines_named(all, depends, all.len() as int),
    ensures
        add_dependencies(all, depends, n, acc) == acc,
    decreases n,
{
    if n > 0 {
        lemma_dependencies_second_time(all, depends, n - 1, acc);
        if all[n - 1].name == depends {
            assert(acc.seen.contains(all[n - 1].line));
        }
    }
}

/// The state after the records of one name were added to an empty state,
/// where each of them depends on `depends`.
proof fn lemma_one_name(all: Seq<TaskView>, name: Seq<char>, depends: Seq<char>, n: int)
    requires
        0 <= n <= all.len(),
        depends.len() > 0,
        forall|j: int|
            0 <= j < all.len() && (#[trigger] all[j]).name == name ==> all[j].depends == depends,
    ensures
        records_named(all, name, n).len() == 0 ==> add_records(all, name, n, nothing_resolved())
            == nothing_resolved(),
        records_named(all, name, n).len() > 0 ==> add_records(all, name, n, nothing_resolved())
            == (Resolution {
            tasks: lines_once(all, depends, all.len() as int) + records_named(all, name, n),
            seen: lines_named(all, depends, all.len() as int),
            matched: true,
        }),
    decreases n,
{
    if n > 0 {
        lemma_one_name(all, name, depends, n - 1);
        let before = add_records(all, name, n - 1, nothing_resolved());
        let record = all[n - 1];
        let once = lines_once(all, depends, all.len() as int);
        if record.name == name {
            let ready = add_dependencies(all, depends, all.len() as int, before);
            if records_named(all, name, n - 1).len() == 0 {
                lemma_dependencies_first_time(all, depends, all.len() as int, before);
                assert(before.tasks + once =~= once);
                assert(records_named(all, name, n) =~= seq![record]);
                assert(ready.tasks.push(record) =~= once + records_named(all, name, n));
            } else {
                lemma_dependencies_second_time(all, depends, all.len() as int, before);
                assert(ready.tasks.push(record) =~= once + records_named(all, name, n));
            }
        }
    }
}

/// A dependency runs first: where one name is asked for, a record has that
/// name, and every record of that name depends on `depends`, the resolution
/// is every record named `depends`, each line once, followed by every record
/// of the name asked for, both in file order.
pub proof fn lemma_dependency_runs_first(all: Seq<TaskView>, name: Seq<char>, depends: Seq<char>)
    requires
        depends.len() > 0,
        exists|j: int| 0 <= j < all.len() && (#[trigger] all[j]).name == name,
        forall|j: int|
            0 <= j < all.len() && (#[trigger] all[j]).name == name ==> all[j].depends == depends,
    ensures
        resolution(seq![name], all) == Ok::<Seq<TaskView>, Seq<char>>(
            lines_once(all, depends, all.len() as int) + records_named(
                all,
                name,
                all.len() as int,
            ),
        ),
{
    let n = all.len() as int;
    lemma_one_name(all, name, depends, n);
    lemma_records_matched(all, name, n, nothing_resolved());
    let requested = seq![name];
    assert(resolve_requests(all, requested, 0) == nothing_resolved());
    assert(resolve_requests(all, requested, 1) == add_records(
        all,
        requested[0],
        n,
        resolve_requests(all, requested, 0),
    ));
    if records_named(all, name, n).len() == 0 {
        assert(add_records(all, name, n, nothing_resolved()).matched);
    }
}

/// An unknown name fails: where no record has any of the names asked
/// for, the resolution reports the last of them.
pub proof fn lemma_unknown_name_fails(requested: Seq<Seq<char>>, all: Seq<TaskView>)
    requires
        !some_name_known(requested, all, requested.len() as int),
    ensures
        resolution(requested, all) == Err::<Seq<TaskView>, Seq<char>>(reported_name(requested)),
{
    lemma_resolution_succeeds(requested, all, requested.len() as int);
}

/// The failure of a resolution: no record was found for any name that was
/// asked for.
#[derive(Debug)]
pub struct NoSuchTask {
    /// The name to report: the last one that was asked for.
    pub task: String,
}

struct Progress {
    out: Vec<Task>,
    seen: Vec<usize>,
    matched: bool,
}

impl View for Progress {
    type V = Resolution;

    closed spec fn view(&self) -> Resolution {
        Resolution {
            tasks: self.out.deep_view(),
            seen: Set::new(
                |l: nat| exists|k: int| 0 <= k < self.seen@.len() && (#[trigger] self.seen@[k]) == l,
            ),
            matched: self.matched,
        }
    }
}

impl Progress {
    fn new() -> (r: Progress)
        ensures
            r@ == nothing_resolved(),
    {
        let r = Progress { out: Vec::new(), seen: Vec::new(), matched: false };
        assert(r@.tasks =~= Seq::<TaskView>::empty());
        assert(r@.seen =~= Set::<nat>::empty());
        r
    }

    fn saw(&self, line: usize) -> (r: bool)
        ensures
            r == self@.seen.contains(line as nat),
    {
        let mut k: usize = 0;
        while k < self.seen.len()
            invariant
                k <= self.seen.len(),
                forall|m: int| 0 <= m < k ==> (#[trigger] self.seen@[m]) != line,
            decreases self.seen.len() - k,
        {
            if self.seen[k] == line {
                return true;
            }
            k += 1;
        }
        false
    }

    fn add_dependencies(&mut self, tasks: &Vec<Task>, depends: &str)
        ensures
            final(self)@ == add_dependencies(
                tasks.deep_view(),
                depends@,
                tasks.len() as int,
                old(self)@,
            ),
    {
        let ghost start = self@;
        let mut i: usize = 0;
        while i < tasks.len()
            invariant
                i <= tasks.len(),
                self@ == add_dependencies(tasks.deep_view(), depends@, i as int, start),
            decreases tasks.len() - i,
        {
            let record = &tasks[i];
            assert(record@ == tasks.deep_view()[i as int]);
            if same_text(record.get_name(), depends) && !self.saw(record.get_line()) {
                let ghost before = self@;
                let ghost seen_before = self.seen@;
                self.out.push(record.clone());
                self.seen.push(record.get_line());
                assert(self@.tasks =~= before.tasks.push(record@));
                assert(self@.seen =~= before.seen.insert(record@.line)) by {
                    assert forall|l: nat| before.seen.insert(record@.line).contains(l) implies
                        self@.seen.contains(l) by {
                        if l == record@.line {
                            assert(self.seen@[seen_before.len() as int] == l);
                        } else {
                            let k = choose|k: int|
                                0 <= k < seen_before.len() && (#[trigger] seen_before[k]) == l;
                            assert(self.seen@[k] == l);
                        }
                    }
                    assert forall|l: nat| self@.seen.contains(l) implies before.seen.insert(
                        record@.line,
                    ).contains(l) by {
                        let k = choose|k: int|
                            0 <= k < self.seen@.len() && (#[trigger] self.seen@[k]) == l;
                        if k < seen_before.len() {
                            assert(seen_before[k] == l);
                        }
                    }
                }
            }
            i += 1;
        }
    }

    fn add_records(&mut self, tasks: &Vec<Task>, name: &str)
        ensures
            final(self)@ == add_records(tasks.deep_view(), name@, tasks.len() as int, old(self)@),
    {
        let ghost start = self@;
        let mut i: usize = 0;
        while i < tasks.len()
            invariant
                i <= tasks.len(),
                self@ == add_records(tasks.deep_view(), name@, i as int, start),
            decreases tasks.len() - i,
        {
            let record = &tasks[i];
            assert(record@ == tasks.deep_view()[i as int]);
            if same_text(record.get_name(), name) {
                if record.get_depends().unicode_len() > 0 {
                    self.add_dependencies(tasks, record.get_depends());
                }
                let ghost before = self@;
                self.out.push(record.clone());
                self.matched = true;
                assert(self@.tasks =~= before.tasks.push(record@));
                assert(self@.seen =~= before.seen);
            }
            i += 1;
        }
    }
}

/// The records to run for the names asked for. For each name in turn, and
/// for each record of that name in file order: first the records named by
/// its dependency, each line only once over the whole resolution, then the
/// record itself. Where no name asked for has a record, the resolution fails
/// and reports the last name asked for.
pub fn resolve(requested: &Vec<String>, tasks: &Vec<Task>) -> (r: Result<Vec<Task>, NoSuchTask>)
    ensures
        match r {
            Ok(list) => resolution(requested.deep_view(), tasks.deep_view()) == Ok::<
                Seq<TaskView>,
                Seq<char>,
            >(list.deep_view()),
            Err(failure) => resolution(requested.deep_view(), tasks.deep_view()) == Err::<
                Seq<TaskView>,
                Seq<char>,
            >(failure.task@),
        },
        r is Ok <==> some_name_known(
            requested.deep_view(),
            tasks.deep_view(),
            requested.len() as int,
        ),
{
    let mut progress = Progress::new();
    let mut i: usize = 0;
    while i < requested.len()
        invariant
            i <= requested.len(),
            progress@ == resolve_requests(tasks.deep_view(), requested.deep_view(), i as int),
        decreases requested.len() - i,
    {
        assert(requested[i as int]@ == requested.deep_view()[i as int]);
        progress.add_records(tasks, requested[i].as_str());
        i += 1;
    }
    proof {
        lemma_resolution_succeeds(
            requested.deep_view(),
            tasks.deep_view(),
            requested.len() as int,
        );
    }
    if progress.matched {
        Ok(progress.out)
    } else {
        let task = if requested.len() > 0 {
            assert(requested.deep_view().last() == requested[requested.len() - 1]@);
            requested[requested.len() - 1].clone()
        } else {
            String::new()
        };
        Err(NoSuchTask { task })
    }
}

} // verus!
