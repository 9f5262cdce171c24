use super::status::Status;
use super::task::{Task, TaskId, TaskView};
use super::timestamp::{utc_now, Timestamp};
use vstd::prelude::*;

verus! {

/// What a store is: its tasks in insertion order, the highest identifier it
/// ever handed out, and the location it is kept at.
pub ghost struct StoreView {
    pub tasks: Seq<TaskView>,
    pub max_task_id: nat,
    pub path: Seq<char>,
}

/// The location of a store for which none was named.
pub open spec fn default_path() -> Seq<char> {
    "data/data.json"@
}

/// The location that a store is kept at, given the caller's choice.
pub open spec fn resolved_path(file_path: Option<Seq<char>>) -> Seq<char> {
    match file_path {
        Some(path) => path,
        None => default_path(),
    }
}

/// The highest identifier among `tasks`, and 0 where there is none.
pub open spec fn highest_id(tasks: Seq<TaskView>) -> nat
    decreases tasks.len(),
{
    if tasks.len() == 0 {
        0
    } else {
        let rest = highest_id(tasks.drop_last());
        if tasks.last().id > rest {
            tasks.last().id
        } else {
            rest
        }
    }
}

/// Those of `tasks` whose status is `wanted`, in the order they stand in.
pub open spec fn tasks_with_status(tasks: Seq<TaskView>, wanted: Status) -> Seq<TaskView> {
    tasks.filter(|task: TaskView| task.status == wanted)
}

/// The tasks that a vector holds, each by its view.
pub open spec fn task_views(tasks: Seq<Task>) -> Seq<TaskView> {
    tasks.map_values(|task: Task| task@)
}

/// The tasks that a vector of references points at, each by its view.
pub open spec fn listed_views(tasks: Seq<&Task>) -> Seq<TaskView> {
    tasks.map_values(|task: &Task| task@)
}

impl StoreView {
    /// The store that holds nothing and has handed out no identifier.
    pub open spec fn empty(path: Seq<char>) -> StoreView {
        StoreView { tasks: Seq::empty(), max_task_id: 0, path }
    }

    /// The store as it is rebuilt from persisted tasks.
    pub open spec fn loaded(tasks: Seq<TaskView>, path: Seq<char>) -> StoreView {
        StoreView { tasks, max_task_id: highest_id(tasks), path }
    }

    /// No task carries an identifier above the highest one handed out.
    pub open spec fn wf(self) -> bool {
        forall|i: int| 0 <= i < self.tasks.len() ==> (#[trigger] self.tasks[i]).id <= self.max_task_id
    }

    /// No two tasks share an identifier.
    pub open spec fn ids_distinct(self) -> bool {
        forall|i: int, j: int|
            0 <= i < j < self.tasks.len() ==> (#[trigger] self.tasks[i]).id != (
            #[trigger] self.tasks[j]).id
    }

    /// The identifier that the next added task receives.
    pub open spec fn next_id(self) -> nat {
        self.max_task_id + 1
    }

    /// Position `i` holds the first task, in insertion order, with identifier `id`.
    pub open spec fn is_first_with_id(self, id: nat, i: int) -> bool {
        &&& 0 <= i < self.tasks.len()
        &&& self.tasks[i].id == id
        &&& forall|j: int| 0 <= j < i ==> (#[trigger] self.tasks[j]).id != id
    }

    /// Some task carries the identifier `id`.
    pub open spec fn contains_id(self, id: nat) -> bool {
        exists|i: int| self.is_first_with_id(id, i)
    }

    /// The position of the first task with identifier `id`.
    pub open spec fn position(self, id: nat) -> int {
        choose|i: int| self.is_first_with_id(id, i)
    }

    /// The store after a task with the given text was added at instant `at`.
    pub open spec fn add_task(self, description: Seq<char>, at: Timestamp) -> StoreView {
        StoreView {
            tasks: self.tasks.push(TaskView::created(self.next_id(), description, at)),
            max_task_id: self.next_id(),
            ..self
        }
    }

    /// The store after the task `id` got a new description at instant `at`;
    /// the store itself where no task carries `id`.
    pub open spec fn update_task(self, id: nat, description: Seq<char>, at: Timestamp) -> StoreView {
        if self.contains_id(id) {
            let i = self.position(id);
            StoreView {
                tasks: self.tasks.update(i, self.tasks[i].with_description(description, at)),
                ..self
            }
        } else {
            self
        }
    }

    /// The store after the task `id` was removed; the store itself where no
    /// task carries `id`. The other tasks keep their order, and the highest
    /// identifier handed out stays what it was.
    pub open spec fn delete_task(self, id: nat) -> StoreView {
        if self.contains_id(id) {
            StoreView { tasks: self.tasks.remove(self.position(id)), ..self }
        } else {
            self
        }
    }

    /// The store after the task `id` got the status `status` at instant `at`;
    /// the store itself where no task carries `id`.
    pub open spec fn mark_task(self, id: nat, status: Status, at: Timestamp) -> StoreView {
        if self.contains_id(id) {
            let i = self.position(id);
            StoreView { tasks: self.tasks.update(i, self.tasks[i].with_status(status, at)), ..self }
        } else {
            self
        }
    }

    /// The tasks that a listing shows: all of them, or those with the status
    /// asked for, in insertion order.
    pub open spec fn list_tasks(self, status: Option<Status>) -> Seq<TaskView> {
        match status {
            Some(wanted) => tasks_with_status(self.tasks, wanted),
            None => self.tasks,
        }
    }
}

/// The first position that holds `id` is unique.
pub proof fn lemma_position_is_first(store: StoreView, id: nat, i: int)
    requires
        store.is_first_with_id(id, i),
    ensures
        store.contains_id(id),
        store.position(id) == i,
{
    let chosen = store.position(id);
    assert(store.is_first_with_id(id, chosen));
    if chosen < i {
        assert(store.tasks[chosen].id != id);
    }
    if i < chosen {
        assert(store.tasks[i].id != id);
    }
}

/// `highest_id` bounds every identifier and, where there is a task, is the
/// identifier of one.
pub proof fn lemma_highest_id_is_maximum(tasks: Seq<TaskView>)
    ensures
        forall|i: int| 0 <= i < tasks.len() ==> (#[trigger] tasks[i]).id <= highest_id(tasks),
        tasks.len() == 0 ==> highest_id(tasks) == 0,
        tasks.len() > 0 ==> exists|i: int| 0 <= i < tasks.len() && (#[trigger] tasks[i]).id == highest_id(tasks),
    decreases tasks.len(),
{
    if tasks.len() > 0 {
        let rest = tasks.drop_last();
        lemma_highest_id_is_maximum(rest);
        assert forall|i: int| 0 <= i < tasks.len() implies (#[trigger] tasks[i]).id <= highest_id(
            tasks,
        ) by {
            if i < rest.len() {
                assert(rest[i] == tasks[i]);
            }
        }
        if tasks.last().id > highest_id(rest) {
            assert(tasks[tasks.len() - 1].id == highest_id(tasks));
        } else if rest.len() > 0 {
            let k = choose|k: int| 0 <= k < rest.len() && (#[trigger] rest[k]).id == highest_id(rest);
            assert(tasks[k] == rest[k]);
            assert(tasks[k].id == highest_id(tasks));
        } else {
            assert(tasks[0].id == highest_id(tasks));
        }
    }
}

/// Every operation keeps each identifier at or below the highest one handed
/// out.
pub proof fn lemma_operations_keep_wf(
    store: StoreView,
    id: nat,
    description: Seq<char>,
    status: Status,
    at: Timestamp,
)
    requires
        store.wf(),
    ensures
        store.add_task(description, at).wf(),
        store.update_task(id, description, at).wf(),
        store.delete_task(id).wf(),
        store.mark_task(id, status, at).wf(),
{
    let added = store.add_task(description, at);
    assert forall|i: int| 0 <= i < added.tasks.len() implies (#[trigger] added.tasks[i]).id
        <= added.max_task_id by {
        if i < store.tasks.len() {
            assert(added.tasks[i] == store.tasks[i]);
        }
    }
    if store.contains_id(id) {
        let p = store.position(id);
        let updated = store.update_task(id, description, at);
        assert forall|i: int| 0 <= i < updated.tasks.len() implies (#[trigger] updated.tasks[i]).id
            <= updated.max_task_id by {
            assert(updated.tasks[i].id == store.tasks[i].id);
        }
        let marked = store.mark_task(id, status, at);
        assert forall|i: int| 0 <= i < marked.tasks.len() implies (#[trigger] marked.tasks[i]).id
            <= marked.max_task_id by {
            assert(marked.tasks[i].id == store.tasks[i].id);
        }
        let deleted = store.delete_task(id);
        assert forall|i: int| 0 <= i < deleted.tasks.len() implies (#[trigger] deleted.tasks[i]).id
            <= deleted.max_task_id by {
            if i < p {
                assert(deleted.tasks[i] == store.tasks[i]);
            } else {
                assert(deleted.tasks[i] == store.tasks[i + 1]);
            }
        }
    }
}

/// The positions of the tasks with status `wanted`, in insertion order.
pub open spec fn matching_positions(tasks: Seq<TaskView>, wanted: Status) -> Seq<int>
    decreases tasks.len(),
{
    if tasks.len() == 0 {
        Seq::empty()
    } else {
        let rest = matching_positions(tasks.drop_last(), wanted);
        if tasks.last().status == wanted {
            rest.push(tasks.len() - 1)
        } else {
            rest
        }
    }
}

/// `matching_positions` lists, in rising order, exactly the positions whose
/// task has the status `wanted`.
pub proof fn lemma_matching_positions(tasks: Seq<TaskView>, wanted: Status)
    ensures
        forall|k: int|
            0 <= k < matching_positions(tasks, wanted).len() ==> {
                let i = #[trigger] matching_positions(tasks, wanted)[k];
                0 <= i < tasks.len() && tasks[i].status == wanted
            },
        forall|k: int, l: int|
            0 <= k < l < matching_positions(tasks, wanted).len() ==> (#[trigger] matching_positions(
                tasks,
                wanted,
            )[k]) < (#[trigger] matching_positions(tasks, wanted)[l]),
        forall|i: int|
            0 <= i < tasks.len() && (#[trigger] tasks[i]).status == wanted ==> matching_positions(
                tasks,
                wanted,
            ).contains(i),
    decreases tasks.len(),
{
    if tasks.len() > 0 {
        let shorter = tasks.drop_last();
        let rest = matching_positions(shorter, wanted);
        let all = matching_positions(tasks, wanted);
        lemma_matching_positions(shorter, wanted);
        assert forall|k: int| 0 <= k < all.len() implies {
            let i = #[trigger] all[k];
            0 <= i < tasks.len() && tasks[i].status == wanted
        } by {
            if k < rest.len() {
                assert(all[k] == rest[k]);
                assert(shorter[rest[k]] == tasks[rest[k]]);
            }
        }
        assert forall|k: int, l: int| 0 <= k < l < all.len() implies (#[trigger] all[k]) < (
        #[trigger] all[l]) by {
            assert(all[k] == rest[k]);
            if l < rest.len() {
                assert(all[l] == rest[l]);
            }
        }
        assert forall|i: int| 0 <= i < tasks.len() && (#[trigger] tasks[i]).status
            == wanted implies all.contains(i) by {
            if i < shorter.len() {
                assert(shorter[i] == tasks[i]);
                let k = choose|k: int| 0 <= k < rest.len() && rest[k] == i;
                assert(all[k] == i);
            } else {
                assert(all[all.len() - 1] == i);
            }
        }
    }
}

/// A listing by status is exactly the tasks with that status, each once, in
/// insertion order: its entries are the tasks at the matching positions,
/// taken in rising order. A listing without a status is the whole collection.
pub proof fn law_listing_is_the_matching_tasks_in_order(store: StoreView, wanted: Status)
    ensures
        store.list_tasks(None) == store.tasks,
        store.list_tasks(Some(wanted)).len() == matching_positions(store.tasks, wanted).len(),
        forall|k: int|
            0 <= k < store.list_tasks(Some(wanted)).len() ==> (#[trigger] store.list_tasks(
                Some(wanted),
            )[k]) == store.tasks[matching_positions(store.tasks, wanted)[k]],
        forall|k: int|
            0 <= k < matching_positions(store.tasks, wanted).len() ==> {
                let i = #[trigger] matching_positions(store.tasks, wanted)[k];
                0 <= i < store.tasks.len() && store.tasks[i].status == wanted
            },
        forall|k: int, l: int|
            0 <= k < l < matching_positions(store.tasks, wanted).len() ==> (
            #[trigger] matching_positions(store.tasks, wanted)[k]) < (#[trigger] matching_positions(
                store.tasks,
                wanted,
            )[l]),
        forall|i: int|
            0 <= i < store.tasks.len() && (#[trigger] store.tasks[i]).status == wanted
                ==> matching_positions(store.tasks, wanted).contains(i),
{
    lemma_listing_follows_positions(store.tasks, wanted);
    lemma_matching_positions(store.tasks, wanted);
}

/// The tasks that pass the filter on a status are those at the matching
/// positions.
pub proof fn lemma_listing_follows_positions(tasks: Seq<TaskView>, wanted: Status)
    ensures
        tasks_with_status(tasks, wanted).len() == matching_positions(tasks, wanted).len(),
        forall|k: int|
            0 <= k < matching_positions(tasks, wanted).len() ==> (#[trigger] tasks_with_status(
                tasks,
                wanted,
            )[k]) == tasks[matching_positions(tasks, wanted)[k]],
    decreases tasks.len(),
{
    reveal(Seq::filter);
    if tasks.len() > 0 {
        let shorter = tasks.drop_last();
        let rest = matching_positions(shorter, wanted);
        lemma_listing_follows_positions(shorter, wanted);
        lemma_matching_positions(shorter, wanted);
        assert forall|k: int| 0 <= k < matching_positions(tasks, wanted).len() implies (
        #[trigger] tasks_with_status(tasks, wanted)[k]) == tasks[matching_positions(
            tasks,
            wanted,
        )[k]] by {
            if k < rest.len() {
                assert(tasks_with_status(shorter, wanted)[k] == shorter[rest[k]]);
                assert(shorter[rest[k]] == tasks[rest[k]]);
            }
        }
    }
}

/// A change to an existing task that is dated after its last change moves
/// `updated_at` strictly forward, to the instant of the change, and leaves
/// `created_at`, the identifier and every other task as they were.
pub proof fn law_change_moves_updated_at_forward(
    store: StoreView,
    id: nat,
    description: Seq<char>,
    status: Status,
    at: Timestamp,
)
    requires
        store.contains_id(id),
        store.tasks[store.position(id)].updated_at.before(at),
    ensures
        ({
            let i = store.position(id);
            let updated = store.update_task(id, description, at);
            let marked = store.mark_task(id, status, at);
            &&& 0 <= i < store.tasks.len()
            &&& store.tasks[i].id == id
            &&& updated.tasks.len() == store.tasks.len()
            &&& marked.tasks.len() == store.tasks.len()
            &&& store.tasks[i].updated_at.before(updated.tasks[i].updated_at)
            &&& store.tasks[i].updated_at.before(marked.tasks[i].updated_at)
            &&& updated.tasks[i].created_at == store.tasks[i].created_at
            &&& marked.tasks[i].created_at == store.tasks[i].created_at
            &&& updated.tasks[i].id == id
            &&& marked.tasks[i].id == id
            &&& forall|j: int|
                0 <= j < store.tasks.len() && j != i ==> #[trigger] updated.tasks[j]
                    == store.tasks[j]
            &&& forall|j: int|
                0 <= j < store.tasks.len() && j != i ==> #[trigger] marked.tasks[j]
                    == store.tasks[j]
        }),
{
}

/// The collection of tasks with the bookkeeping of their identifiers.
#[derive(Debug)]
pub struct Store {
    tasks: Vec<Task>,
    max_task_id: TaskId,
    path: String,
}

impl View for Store {
    type V = StoreView;

    closed spec fn view(&self) -> StoreView {
        StoreView {
            tasks: task_views(self.tasks@),
            max_task_id: self.max_task_id as nat,
            path: self.path@,
        }
    }
}

/// The caller's choice of a location, as a sequence of characters.
pub open spec fn path_choice(file_path: Option<&str>) -> Option<Seq<char>> {
    match file_path {
        Some(path) => Some(path@),
        None => None,
    }
}

impl Store {
    /// The location that a store opened with `file_path` is kept at: the
    /// path given, or the default one.
    pub fn location(file_path: Option<&str>) -> (path: String)
        ensures
            path@ == resolved_path(path_choice(file_path)),
    {
        match file_path {
            Some(p) => p.to_owned(),
            None => "data/data.json".to_owned(),
        }
    }

    /// An empty store kept at `file_path`, or at the default location.
    pub fn new(file_path: Option<&str>) -> (store: Store)
        ensures
            store@ == StoreView::empty(resolved_path(path_choice(file_path))),
            store@.wf(),
    {
        let store = Store { tasks: Vec::new(), max_task_id: 0, path: Store::location(file_path) };
        assert(store@.tasks =~= Seq::empty());
        store
    }

    /// A store rebuilt from persisted tasks, in their recorded order. The
    /// highest identifier handed out is taken to be the highest one found.
    pub fn with_tasks(file_path: Option<&str>, tasks: Vec<Task>) -> (store: Store)
        ensures
            store@ == StoreView::loaded(task_views(tasks@), resolved_path(path_choice(file_path))),
            store@.wf(),
    {
        let mut max_task_id: TaskId = 0;
        let mut i: usize = 0;
        while i < tasks.len()
            invariant
                i <= tasks.len(),
                max_task_id as nat == highest_id(task_views(tasks@).take(i as int)),
            decreases tasks.len() - i,
        {
            let id = tasks[i].id();
            proof {
                let views = task_views(tasks@);
                assert(views.take(i + 1).drop_last() =~= views.take(i as int));
                assert(views.take(i + 1).last() == tasks@[i as int]@);
            }
            if id > max_task_id {
                max_task_id = id;
            }
            i += 1;
        }
        proof {
            assert(task_views(tasks@).take(i as int) =~= task_views(tasks@));
            lemma_highest_id_is_maximum(task_views(tasks@));
        }
        Store { tasks, max_task_id, path: Store::location(file_path) }
    }

    /// Opens the store kept at `file_path`, given what was found there: the
    /// persisted tasks, or `None` where nothing is kept there yet. In the
    /// second case the store starts empty, and the flag returned with it says
    /// that it has to be written out at once, so that an opened store is
    /// always kept at its location.
    pub fn open(file_path: Option<&str>, persisted: Option<Vec<Task>>) -> (opened: (Store, bool))
        ensures
            opened.0@ == match persisted {
                Some(tasks) => StoreView::loaded(
                    task_views(tasks@),
                    resolved_path(path_choice(file_path)),
                ),
                None => StoreView::empty(resolved_path(path_choice(file_path))),
            },
            opened.1 == (persisted is None),
            opened.0@.wf(),
    {
        match persisted {
            Some(tasks) => (Store::with_tasks(file_path, tasks), false),
            None => (Store::new(file_path), true),
        }
    }

    /// Looks for the first task, in insertion order, that carries `id`.
    pub fn find_task(&self, id: TaskId) -> (found: Option<usize>)
        ensures
            found is Some <==> self@.contains_id(id as nat),
            found is Some ==> found->0 as int == self@.position(id as nat),
    {
        let mut i: usize = 0;
        while i < self.tasks.len()
            invariant
                i <= self.tasks.len(),
                forall|j: int| 0 <= j < i ==> (#[trigger] self@.tasks[j]).id != id as nat,
            decreases self.tasks.len() - i,
        {
            if self.tasks[i].id() == id {
                proof {
                    lemma_position_is_first(self@, id as nat, i as int);
                }
                return Some(i);
            }
            i += 1;
        }
        None
    }

    /// Adds a task dated by the wall clock and returns its identifier, which
    /// is one above the highest identifier handed out so far.
    pub fn add_task(&mut self, description: String) -> (id: TaskId)
        requires
            old(self)@.max_task_id < usize::MAX,
        ensures
            id as nat == old(self)@.next_id(),
            final(self)@ == old(self)@.add_task(description@, final(self)@.tasks.last().created_at),
            old(self)@.wf() ==> final(self)@.wf(),
    {
        let at = utc_now();
        self.add_task_at(description, at)
    }

    /// Adds a task dated `at` and returns its identifier, which is one above
    /// the highest identifier handed out so far.
    pub fn add_task_at(&mut self, description: String, at: Timestamp) -> (id: TaskId)
        requires
            old(self)@.max_task_id < usize::MAX,
        ensures
            id as nat == old(self)@.next_id(),
            final(self)@ == old(self)@.add_task(description@, at),
            old(self)@.wf() ==> final(self)@.wf(),
    {
        let id = self.max_task_id + 1;
        let task = Task::new_at(id, description, at);
        self.tasks.push(task);
        self.max_task_id = id;
        proof {
            assert(self@.tasks =~= old(self)@.add_task(description@, at).tasks);
            if old(self)@.wf() {
                lemma_operations_keep_wf(old(self)@, 0, description@, Status::ToDo, at);
            }
        }
        id
    }

    /// Replaces the description of the first task that carries `id`, dating
    /// the change by the wall clock. Returns whether there was such a task;
    /// where there was none the store is left as it was.
    pub fn update_task(&mut self, id: TaskId, description: String) -> (found: bool)
        ensures
            found == old(self)@.contains_id(id as nat),
            found ==> final(self)@ == old(self)@.update_task(
                id as nat,
                description@,
                final(self)@.tasks[old(self)@.position(id as nat)].updated_at,
            ),
            !found ==> final(self)@ == old(self)@,
            old(self)@.wf() ==> final(self)@.wf(),
    {
        let at = utc_now();
        self.update_task_at(id, description, at)
    }

    /// Replaces the description of the first task that carries `id`, dating
    /// the change `at`. Returns whether there was such a task; where there was
    /// none the store is left as it was.
    pub fn update_task_at(&mut self, id: TaskId, description: String, at: Timestamp) -> (found:
        bool)
        ensures
            found == old(self)@.contains_id(id as nat),
            final(self)@ == old(self)@.update_task(id as nat, description@, at),
            old(self)@.wf() ==> final(self)@.wf(),
    {
        proof {
            if old(self)@.wf() {
                lemma_operations_keep_wf(old(self)@, id as nat, description@, Status::ToDo, at);
            }
        }
        match self.find_task(id) {
            Some(i) => {
                self.tasks[i].set_description_at(description, at);
                assert(self@.tasks =~= old(self)@.update_task(id as nat, description@, at).tasks);
                true
            },
            None => false,
        }
    }

    /// Removes the first task that carries `id`; the others keep their order.
    /// Returns whether there was such a task; where there was none the store
    /// is left as it was.
    pub fn delete_task(&mut self, id: TaskId) -> (found: bool)
        ensures
            found == old(self)@.contains_id(id as nat),
            final(self)@ == old(self)@.delete_task(id as nat),
            old(self)@.wf() ==> final(self)@.wf(),
    {
        proof {
            if old(self)@.wf() {
                lemma_operations_keep_wf(
                    old(self)@,
                    id as nat,
                    Seq::empty(),
                    Status::ToDo,
                    Timestamp { secs: 0, nanos: 0 },
                );
            }
        }
        match self.find_task(id) {
            Some(i) => {
                let _ = self.tasks.remove(i);
                assert(self@.tasks =~= old(self)@.delete_task(id as nat).tasks);
                true
            },
            None => false,
        }
    }

    /// Sets the status of the first task that carries `id`, dating the change
    /// by the wall clock. Returns whether there was such a task; where there
    /// was none the store is left as it was.
    pub fn mark_task(&mut self, id: TaskId, status: Status) -> (found: bool)
        ensures
            found == old(self)@.contains_id(id as nat),
            found ==> final(self)@ == old(self)@.mark_task(
                id as nat,
                status,
                final(self)@.tasks[old(self)@.position(id as nat)].updated_at,
            ),
            !found ==> final(self)@ == old(self)@,
            old(self)@.wf() ==> final(self)@.wf(),
    {
        let at = utc_now();
        self.mark_task_at(id, status, at)
    }

    /// Sets the status of the first task that carries `id`, dating the change
    /// `at`. Any status may follow any other, the same one included.
    pub fn mark_task_at(&mut self, id: TaskId, status: Status, at: Timestamp) -> (found: bool)
        ensures
            found == old(self)@.contains_id(id as nat),
            final(self)@ == old(self)@.mark_task(id as nat, status, at),
            old(self)@.wf() ==> final(self)@.wf(),
    {
        proof {
            if old(self)@.wf() {
                lemma_operations_keep_wf(old(self)@, id as nat, Seq::empty(), status, at);
            }
        }
        match self.find_task(id) {
            Some(i) => {
                self.tasks[i].set_status_at(status, at);
                assert(self@.tasks =~= old(self)@.mark_task(id as nat, status, at).tasks);
                true
            },
            None => false,
        }
    }

    /// Lists the tasks in insertion order: all of them, or those whose status
    /// is the one asked for.
    pub fn list_tasks(&self, status: Option<Status>) -> (listed: Vec<&Task>)
        ensures
            listed_views(listed@) == self@.list_tasks(status),
    {
        let mut listed: Vec<&Task> = Vec::new();
        let mut i: usize = 0;
        while i < self.tasks.len()
            invariant
                i <= self.tasks.len(),
                listed_views(listed@) == (StoreView {
                    tasks: self@.tasks.take(i as int),
                    ..self@
                }).list_tasks(status),
            decreases self.tasks.len() - i,
        {
            let task = &self.tasks[i];
            let ghost before = listed_views(listed@);
            let ghost prefix = self@.tasks.take(i as int);
            let ghost longer = self@.tasks.take(i + 1);
            proof {
                assert(longer.drop_last() =~= prefix);
                assert(longer.last() == task@);
            }
            let keep = match status {
                Some(wanted) => *task.status() == wanted,
                None => true,
            };
            if keep {
                listed.push(task);
                assert(listed_views(listed@) =~= before.push(task@));
            }
            proof {
                match status {
                    Some(wanted) => {
                        reveal(Seq::filter);
                    },
                    None => {
                        assert(longer =~= prefix.push(task@));
                    },
                }
            }
            i += 1;
        }
        assert(self@.tasks.take(i as int) =~= self@.tasks);
        listed
    }

    pub fn tasks(&self) -> (tasks: &Vec<Task>)
        ensures
            task_views(tasks@) == self@.tasks,
    {
        &self.tasks
    }

    pub fn max_task_id(&self) -> (id: TaskId)
        ensures
            id as nat == self@.max_task_id,
    {
        self.max_task_id
    }

    pub fn path(&self) -> (path: &String)
        ensures
            path@ == self@.path,
    {
        &self.path
    }
}

} // verus!
