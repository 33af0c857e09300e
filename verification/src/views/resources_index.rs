//! The page that lists the resources of a server.

use crate::addr::{resource_path, tasks_path, ConsoleAddr};
use crate::keys::{id_at, key_at, keys_in_order, lists_in_order};
use crate::reduce::resources::resource_views;
use crate::state::{span, ConsoleState, ConsoleStateView, Resource, ResourceId, ResourceView};
use crate::time::{Duration, Timestamp};
use crate::views::table_view_keybinds::{
    after_key, asked_by_key, clamped, KeybindsView, TableViewKeybinds, TableViewKeybindsUpdate,
};
use crate::views::{command_views, Command, CommandView, ViewError};
use std::collections::{BTreeMap, HashMap};
use vstd::prelude::*;

verus! {

/// What can happen to the page.
#[derive(Debug, Clone, Copy, PartialEq, Eq)]
pub enum Msg {
    TogglePlayPause,
    RowClick(ResourceId),
    Key,
    Update,
    Disconnected,
    Error,
}

/// The age of a resource as it was when the page last looked.
#[derive(Debug, Clone, Copy, PartialEq)]
pub struct ResourceRuntimeStats {
    pub total: Option<Duration>,
}

impl View for ResourceRuntimeStats {
    type V = Option<nat>;

    open spec fn view(&self) -> Option<nat> {
        span(self.total)
    }
}

/// The views of the remembered ages.
pub open spec fn runtime_views(m: Map<u64, ResourceRuntimeStats>) -> Map<u64, Option<nat>> {
    m.map_values(|r: ResourceRuntimeStats| r@)
}

/// The page that lists the resources of the server at `addr`.
#[derive(Debug)]
pub struct ResourcesIndex {
    pub paused_state: Option<ConsoleState>,
    pub addr: ConsoleAddr,
    pub connected: bool,
    pub table_keybinds: TableViewKeybinds,
    pub runtime_stats: HashMap<u64, ResourceRuntimeStats>,
}

/// What a `ResourcesIndex` holds, as plain values.
pub struct ResourcesIndexView {
    pub paused: Option<ConsoleStateView>,
    pub addr: (Seq<char>, Seq<char>),
    pub connected: bool,
    pub keybinds: KeybindsView,
    pub runtime_stats: Map<u64, Option<nat>>,
}

impl View for ResourcesIndex {
    type V = ResourcesIndexView;

    open spec fn view(&self) -> ResourcesIndexView {
        ResourcesIndexView {
            paused: match self.paused_state {
                Some(s) => Some(s@),
                None => None,
            },
            addr: self.addr@,
            connected: self.connected,
            keybinds: self.table_keybinds@,
            runtime_stats: runtime_views(self.runtime_stats@),
        }
    }
}

/// The age of a resource at the instant `now`, in nanoseconds, where the
/// time of its creation is known and not after `now`.
pub open spec fn age_nanos(resource: ResourceView, now: int) -> Option<nat> {
    match resource.stats {
        Some(s) => match s.created_at {
            Some(created_at) => if created_at <= now {
                Some((now - created_at) as nat)
            } else {
                None
            },
            None => None,
        },
        None => None,
    }
}

/// The remembered ages after a look at the resources under `ids` at the
/// instant `now`: the age of each of them, and what was remembered of the
/// others.
pub open spec fn runtimes_over(
    remembered: Map<u64, Option<nat>>,
    resources: Map<u64, ResourceView>,
    ids: Set<u64>,
    now: int,
) -> Map<u64, Option<nat>> {
    Map::new(
        |id: u64| remembered.contains_key(id) || ids.contains(id),
        |id: u64|
            if ids.contains(id) {
                age_nanos(resources[id], now)
            } else {
                remembered[id]
            },
    )
}

/// The snapshot that the page shows: the one it paused on, else the
/// current one.
pub open spec fn shown(view: ResourcesIndexView, current: ConsoleStateView) -> ConsoleStateView {
    match view.paused {
        Some(paused) => paused,
        None => current,
    }
}

/// The page after pause or play: a paused page resumes, a running page
/// pauses on the current snapshot.
pub open spec fn toggled(
    view: ResourcesIndexView,
    current: ConsoleStateView,
) -> ResourcesIndexView {
    ResourcesIndexView {
        paused: if view.paused is Some {
            None
        } else {
            Some(current)
        },
        ..view
    }
}

/// The page after a look at the current snapshot: a paused page does not
/// look.
pub open spec fn refreshed(
    view: ResourcesIndexView,
    current: ConsoleStateView,
    now: int,
) -> ResourcesIndexView {
    if view.paused is Some {
        view
    } else {
        ResourcesIndexView {
            runtime_stats: runtimes_over(
                view.runtime_stats,
                current.resources,
                current.resources.dom(),
                now,
            ),
            ..view
        }
    }
}

/// Where opening the row at place `idx` leads: to the page of the resource
/// that the shown snapshot lists at that place, if it lists that many.
pub open spec fn opened(
    view: ResourcesIndexView,
    current: ConsoleStateView,
    idx: usize,
) -> Seq<CommandView> {
    let resources = shown(view, current).resources;
    match id_at(resources.dom(), idx as int) {
        Some(key) => seq![CommandView::NavigateTo(resource_path(view.addr, resources[key].id))],
        None => seq![],
    }
}

/// The page and what it asks of the browser after a message, before the
/// selection is brought back into the table.
pub open spec fn after_message(
    view: ResourcesIndexView,
    msg: Msg,
    key: Option<Seq<char>>,
    current: ConsoleStateView,
    now: int,
) -> Result<(ResourcesIndexView, Seq<CommandView>), ViewError> {
    match msg {
        Msg::TogglePlayPause => Ok((toggled(view, current), seq![])),
        Msg::RowClick(id) => Ok(
            (view, seq![CommandView::NavigateTo(resource_path(view.addr, id.0))]),
        ),
        Msg::Key => match key {
            None => Err(ViewError::MissingKey),
            Some(key) => {
                let pressed = ResourcesIndexView {
                    keybinds: after_key(view.keybinds, key),
                    ..view
                };
                match asked_by_key(view.keybinds, key) {
                    Some(TableViewKeybindsUpdate::Selected(idx)) => Ok(
                        (pressed, opened(pressed, current, idx)),
                    ),
                    Some(TableViewKeybindsUpdate::GotoResources) => Ok((pressed, seq![])),
                    Some(TableViewKeybindsUpdate::GotoTasks) => Ok(
                        (pressed, seq![CommandView::NavigateTo(tasks_path(view.addr))]),
                    ),
                    Some(TableViewKeybindsUpdate::TogglePlayPause) => Ok(
                        (toggled(pressed, current), seq![]),
                    ),
                    None => Ok((pressed, seq![])),
                }
            },
        },
        Msg::Update => Ok((refreshed(view, current, now), seq![])),
        Msg::Disconnected => Ok((ResourcesIndexView { connected: false, ..view }, seq![])),
        Msg::Error => Err(ViewError::Disconnected),
    }
}

/// The page and what it asks of the browser after a message: as
/// `after_message`, with the selection kept within the rows of the shown
/// snapshot.
pub open spec fn updated(
    view: ResourcesIndexView,
    msg: Msg,
    key: Option<Seq<char>>,
    current: ConsoleStateView,
    now: int,
) -> Result<(ResourcesIndexView, Seq<CommandView>), ViewError> {
    match after_message(view, msg, key, current, now) {
        Err(e) => Err(e),
        Ok((after, commands)) => Ok(
            (
                ResourcesIndexView {
                    keybinds: KeybindsView {
                        selected: clamped(
                            after.keybinds.selected,
                            shown(after, current).resources.len() as int,
                        ),
                        ..after.keybinds
                    },
                    ..after
                },
                commands,
            ),
        ),
    }
}

/// The age of `resource` at the instant `now`.
pub fn runtime_stats_of(resource: &Resource, now: Timestamp) -> (r: ResourceRuntimeStats)
    ensures
        r@ == age_nanos(resource@, now@),
{
    let total = match &resource.stats {
        Some(stats) => match stats.created_at {
            Some(created_at) => created_at.elapsed_at(now),
            None => None,
        },
        None => None,
    };
    ResourceRuntimeStats { total }
}

/// Looks at `resources` at the instant `now`: remembers their ages.
pub fn look_at_resources(
    resources: &BTreeMap<u64, Resource>,
    runtime_stats: &mut HashMap<u64, ResourceRuntimeStats>,
    now: Timestamp,
)
    ensures
        runtime_views(final(runtime_stats)@) == runtimes_over(
            runtime_views(old(runtime_stats)@),
            resource_views(resources@),
            resources@.dom(),
            now@,
        ),
{
    let ghost views = resource_views(resources@);
    let ghost remembered = runtime_views(runtime_stats@);
    let keys = keys_in_order(resources);
    let mut i: usize = 0;
    assert(keys@.take(0).to_set() =~= Set::<u64>::empty());
    assert(runtime_views(runtime_stats@) =~= runtimes_over(
        remembered,
        views,
        Set::<u64>::empty(),
        now@,
    ));
    while i < keys.len()
        invariant
            i <= keys.len(),
            lists_in_order(keys@, resources@.dom()),
            views == resource_views(resources@),
            runtime_views(runtime_stats@) == runtimes_over(
                remembered,
                views,
                keys@.take(i as int).to_set(),
                now@,
            ),
        decreases keys.len() - i,
    {
        let id: u64 = keys[i];
        let ghost seen = keys@.take(i as int).to_set();
        proof {
            assert(keys@.to_set().contains(keys@[i as int]));
            assert(keys@.take(i + 1).to_set() =~= seen.insert(id)) by {
                assert(keys@.take(i + 1) =~= keys@.take(i as int).push(id));
                assert forall|x: u64| seen.insert(id).contains(x) implies keys@.take(
                    i + 1,
                ).to_set().contains(x) by {
                    if x == id {
                        assert(keys@.take(i + 1)[i as int] == x);
                    } else {
                        let j = choose|j: int| 0 <= j < i && keys@.take(i as int)[j] == x;
                        assert(keys@.take(i + 1)[j] == x);
                    }
                }
            }
        }
        match resources.get(&id) {
            Some(resource) => {
                let ghost prior = runtime_stats@;
                runtime_stats.insert(id, runtime_stats_of(resource, now));
                assert(runtime_views(runtime_stats@) =~= runtime_views(prior).insert(
                    id,
                    age_nanos(views[id], now@),
                ));
            },
            None => {},
        }
        assert(runtime_views(runtime_stats@) =~= runtimes_over(
            remembered,
            views,
            seen.insert(id),
            now@,
        ));
        i += 1;
    }
    assert(keys@.take(i as int) =~= keys@);
}

impl ResourcesIndex {
    /// The page for the server at `addr`, before any message.
    pub fn new(addr: ConsoleAddr) -> (r: Self)
        ensures
            r@ == (ResourcesIndexView {
                paused: None,
                addr: addr@,
                connected: true,
                keybinds: KeybindsView { selected: None, help_shown: false },
                runtime_stats: Map::empty(),
            }),
    {
        let r = ResourcesIndex {
            addr,
            paused_state: None,
            connected: true,
            table_keybinds: TableViewKeybinds::default(),
            runtime_stats: HashMap::new(),
        };
        assert(r@.runtime_stats =~= Map::empty());
        r
    }

    /// The command that leads to the page of the resource `id`.
    pub fn navigate_to_resource_command(&self, id: ResourceId) -> (r: Command)
        ensures
            r@ == CommandView::NavigateTo(resource_path(self@.addr, id.0)),
    {
        Command::NavigateTo(self.addr.resource_path(id.0))
    }

    /// The resource that the shown snapshot lists at place `idx`.
    pub fn selected_resource(&self, current: &ConsoleState, idx: usize) -> (r: Option<ResourceId>)
        ensures
            match id_at(shown(self@, current@).resources.dom(), idx as int) {
                Some(key) => r matches Some(id) && id.0 == shown(
                    self@,
                    current@,
                ).resources[key].id,
                None => r is None,
            },
    {
        let state = match &self.paused_state {
            Some(paused) => paused,
            None => current,
        };
        assert(resource_views(state.resources@).dom() =~= state.resources@.dom());
        match key_at(&state.resources, idx) {
            Some(key) => match state.resources.get(&key) {
                Some(resource) => Some(resource.id),
                None => None,
            },
            None => None,
        }
    }

    /// Pauses on the current snapshot, or resumes.
    pub fn toggle_play_pause(&mut self, current: &ConsoleState)
        ensures
            final(self)@ == toggled(old(self)@, current@),
    {
        if self.paused_state.is_some() {
            self.paused_state = None;
        } else {
            self.paused_state = Some(current.clone());
        }
    }

    /// Takes the message `msg` at the instant `now`, with the key that came
    /// with it, if any, and the current snapshot. An error ends the page.
    pub fn do_update(
        self,
        msg: Msg,
        key: Option<&str>,
        current: &ConsoleState,
        now: Timestamp,
    ) -> (r: Result<(ResourcesIndex, Vec<Command>), ViewError>)
        ensures
            match updated(
                self@,
                msg,
                match key {
                    Some(k) => Some(k@),
                    None => None,
                },
                current@,
                now@,
            ) {
                Ok((view, commands)) => r matches Ok((page, asked)) && page@ == view
                    && command_views(asked@) == commands,
                Err(e) => r matches Err(f) && f == e,
            },
    {
        let mut this = self;
        let mut commands: Vec<Command> = Vec::new();
        assert(command_views(commands@) =~= Seq::<CommandView>::empty());
        match msg {
            Msg::TogglePlayPause => {
                this.toggle_play_pause(current);
            },
            Msg::Key => {
                let key = match key {
                    Some(k) => k,
                    None => {
                        return Err(ViewError::MissingKey);
                    },
                };
                match this.table_keybinds.update(key) {
                    Some(TableViewKeybindsUpdate::Selected(idx)) => {
                        match this.selected_resource(current, idx) {
                            Some(id) => {
                                let command = this.navigate_to_resource_command(id);
                                commands.push(command);
                                assert(command_views(commands@) =~= seq![command@]);
                            },
                            None => {},
                        }
                    },
                    Some(TableViewKeybindsUpdate::TogglePlayPause) => {
                        this.toggle_play_pause(current);
                    },
                    Some(TableViewKeybindsUpdate::GotoResources) => {},
                    Some(TableViewKeybindsUpdate::GotoTasks) => {
                        let command = Command::NavigateTo(this.addr.tasks_path());
                        commands.push(command);
                        assert(command_views(commands@) =~= seq![command@]);
                    },
                    None => {},
                }
            },
            Msg::RowClick(id) => {
                let command = this.navigate_to_resource_command(id);
                commands.push(command);
                assert(command_views(commands@) =~= seq![command@]);
            },
            Msg::Update => {
                if this.paused_state.is_none() {
                    assert(resource_views(current.resources@).dom() =~= current.resources@.dom());
                    look_at_resources(&current.resources, &mut this.runtime_stats, now);
                }
            },
            Msg::Disconnected => {
                this.connected = false;
            },
            Msg::Error => {
                return Err(ViewError::Disconnected);
            },
        }
        let rows: usize = match &this.paused_state {
            Some(paused) => {
                assert(resource_views(paused.resources@).dom() =~= paused.resources@.dom());
                paused.resources.len()
            },
            None => {
                assert(resource_views(current.resources@).dom() =~= current.resources@.dom());
                current.resources.len()
            },
        };
        this.table_keybinds.clamp_selected_idx(rows);
        Ok((this, commands))
    }
}

} // verus!
