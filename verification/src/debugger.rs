//! Keyboard-driven focus and selection state of the terminal debugger's panes.
use vstd::prelude::*;

use crate::data::{group_models, pair_models, Data, DataModel};

verus! {

broadcast use group_models;

/// The selection after moving down a list of `count` rows from `selected` (no selection counts
/// as the first row), wrapping round at the end.
pub open spec fn selection_down(selected: Option<usize>, count: usize) -> usize {
    let current = match selected {
        Some(i) => i,
        None => 0usize,
    };
    ((if current < usize::MAX { current + 1 } else { 0 }) % (count as int)) as usize
}

/// The selection after moving up from `selected` (no selection counts as the first row); at the
/// first row it becomes `fallback`.
pub open spec fn selection_up(selected: Option<usize>, fallback: usize) -> usize {
    let current = match selected {
        Some(i) => i,
        None => 0usize,
    };
    if current >= 1 {
        (current - 1) as usize
    } else {
        fallback
    }
}

/// Moves a selection down a list of `count` rows, wrapping round at the end.
fn select_down(selected: Option<usize>, count: usize) -> (r: usize)
    requires
        count > 0,
    ensures
        r == selection_down(selected, count),
{
    selected.unwrap_or(0).wrapping_add(1) % count
}

/// Moves a selection up, to `fallback` from the first row.
fn select_up(selected: Option<usize>, fallback: usize) -> (r: usize)
    ensures
        r == selection_up(selected, fallback),
{
    selected.unwrap_or(0).checked_sub(1).unwrap_or(fallback)
}

/// Which part of the archetypes pane has the keyboard.
#[derive(Debug, Clone, Copy, PartialEq, Eq, Structural)]
pub enum ArchetypesFocus {
    /// The pane does not have the keyboard.
    Unfocused,
    Tabs,
    Table,
}

impl Default for ArchetypesFocus {
    fn default() -> (r: Self)
        ensures
            r == ArchetypesFocus::Unfocused,
    {
        ArchetypesFocus::Unfocused
    }
}

/// Keyboard state of the archetypes pane.
#[derive(Debug, Clone, Copy, PartialEq, Eq, Structural)]
pub struct ArchetypeState {
    pub focus: ArchetypesFocus,
    /// The selected row of the table.
    pub table_selected: Option<usize>,
    pub active_table: usize,
    pub archetype_count: usize,
    pub entity_count: usize,
}

impl Default for ArchetypeState {
    fn default() -> (r: Self)
        ensures
            r.focus == ArchetypesFocus::Unfocused,
            r.table_selected is None,
            r.active_table == 0 && r.archetype_count == 0 && r.entity_count == 0,
    {
        ArchetypeState {
            focus: ArchetypesFocus::Unfocused,
            table_selected: None,
            active_table: 0,
            archetype_count: 0,
            entity_count: 0,
        }
    }
}

/// Whether [`ArchetypeState::handle_input`] can take `input` in state `s` (it cannot move
/// between tabs when there are no archetypes, nor down the table when there are no entities).
pub open spec fn archetype_input_ok(s: ArchetypeState, input: char) -> bool {
    match s.focus {
        ArchetypesFocus::Tabs => (input == 'h' || input == 'l') ==> s.archetype_count > 0,
        ArchetypesFocus::Table => input == 'j' ==> s.entity_count > 0,
        ArchetypesFocus::Unfocused => true,
    }
}

/// The archetypes pane after `input`: in the tabs, `h`/`l` move to the previous/next tab
/// (wrapping round), `j` enters the table at its first row and `k` leaves the pane; in the
/// table, `h` returns to the tabs clearing the selection and `j`/`k` move the selection.
pub open spec fn archetype_step(s: ArchetypeState, input: char) -> ArchetypeState {
    match s.focus {
        ArchetypesFocus::Unfocused => s,
        ArchetypesFocus::Tabs => if input == 'h' {
            ArchetypeState {
                active_table: selection_up(Some(s.active_table), (s.archetype_count - 1) as usize),
                ..s
            }
        } else if input == 'l' {
            ArchetypeState { active_table: selection_down(Some(s.active_table), s.archetype_count), ..s }
        } else if input == 'j' {
            ArchetypeState { table_selected: Some(0), focus: ArchetypesFocus::Table, ..s }
        } else if input == 'k' {
            ArchetypeState { focus: ArchetypesFocus::Unfocused, ..s }
        } else {
            s
        },
        ArchetypesFocus::Table => if input == 'h' {
            ArchetypeState { table_selected: None, focus: ArchetypesFocus::Tabs, ..s }
        } else if input == 'j' {
            ArchetypeState { table_selected: Some(selection_down(s.table_selected, s.entity_count)), ..s }
        } else if input == 'k' {
            ArchetypeState { table_selected: Some(selection_up(s.table_selected, s.entity_count)), ..s }
        } else {
            s
        },
    }
}

impl ArchetypeState {
    /// Gives the keyboard to `focus`.
    pub fn set_focus(&mut self, focus: ArchetypesFocus)
        ensures
            *final(self) == (ArchetypeState { focus, ..*old(self) }),
    {
        self.focus = focus;
    }

    /// Applies a key press (see [`archetype_step`]) and reports the resulting focus.
    pub fn handle_input(&mut self, input: char) -> (r: ArchetypesFocus)
        requires
            archetype_input_ok(*old(self), input),
        ensures
            *final(self) == archetype_step(*old(self), input),
            r == final(self).focus,
    {
        match self.focus {
            ArchetypesFocus::Unfocused => {},
            ArchetypesFocus::Tabs => {
                if input == 'h' {
                    let fallback = self.archetype_count - 1;
                    self.active_table = select_up(Some(self.active_table), fallback);
                } else if input == 'l' {
                    self.active_table = select_down(Some(self.active_table), self.archetype_count);
                } else if input == 'j' {
                    self.table_selected = Some(0);
                    self.focus = ArchetypesFocus::Table;
                } else if input == 'k' {
                    self.focus = ArchetypesFocus::Unfocused;
                }
            },
            ArchetypesFocus::Table => {
                if input == 'h' {
                    self.table_selected = None;
                    self.focus = ArchetypesFocus::Tabs;
                } else if input == 'j' {
                    self.table_selected = Some(select_down(self.table_selected, self.entity_count));
                } else if input == 'k' {
                    self.table_selected = Some(select_up(self.table_selected, self.entity_count));
                }
            },
        }
        self.focus
    }
}

/// Which list of the entities pane has the keyboard.
#[derive(Debug, Clone, Copy, PartialEq, Eq, Structural)]
pub enum EntitiesFocus {
    /// The pane does not have the keyboard.
    Unfocused,
    Entities,
    Components,
}

impl Default for EntitiesFocus {
    fn default() -> (r: Self)
        ensures
            r == EntitiesFocus::Unfocused,
    {
        EntitiesFocus::Unfocused
    }
}

/// Keyboard state of the entities pane.
#[derive(Debug, Clone, Copy, PartialEq, Eq, Structural)]
pub struct EntityState {
    pub focus: EntitiesFocus,
    /// The selected row of the entity list.
    pub entity_selected: Option<usize>,
    /// The selected row of the component list.
    pub component_selected: Option<usize>,
    pub entity_count: usize,
}

impl Default for EntityState {
    fn default() -> (r: Self)
        ensures
            r.focus == EntitiesFocus::Unfocused,
            r.entity_selected is None && r.component_selected is None,
            r.entity_count == 0,
    {
        EntityState {
            focus: EntitiesFocus::Unfocused,
            entity_selected: None,
            component_selected: None,
            entity_count: 0,
        }
    }
}

/// The entities pane after giving the keyboard to `focus`: the entity list keeps its
/// selection (or selects its first row) and clears the component selection; the component
/// list selects its first row.
pub open spec fn entity_focus_step(s: EntityState, focus: EntitiesFocus) -> EntityState {
    match focus {
        EntitiesFocus::Unfocused => EntityState { focus, ..s },
        EntitiesFocus::Entities => EntityState {
            focus,
            entity_selected: if s.entity_selected is None {
                Some(0)
            } else {
                s.entity_selected
            },
            component_selected: None,
            ..s
        },
        EntitiesFocus::Components => EntityState { focus, component_selected: Some(0), ..s },
    }
}

/// Whether [`EntityState::handle_input`] can take `input` in state `s` (moving through a list
/// needs at least one entity).
pub open spec fn entity_input_ok(s: EntityState, input: char) -> bool {
    s.focus != EntitiesFocus::Unfocused && (input == 'j' || input == 'k') ==> s.entity_count > 0
}

/// The entities pane after `input`: in the entity list `h` leaves the pane, `l` moves to the
/// components and `j`/`k` move the selection; in the component list `h` returns to the
/// entities and `j`/`k` move the selection.
pub open spec fn entity_step(s: EntityState, input: char) -> EntityState {
    match s.focus {
        EntitiesFocus::Unfocused => s,
        EntitiesFocus::Entities => if input == 'h' {
            entity_focus_step(s, EntitiesFocus::Unfocused)
        } else if input == 'j' {
            EntityState { entity_selected: Some(selection_down(s.entity_selected, s.entity_count)), ..s }
        } else if input == 'k' {
            EntityState {
                entity_selected: Some(selection_up(s.entity_selected, (s.entity_count - 1) as usize)),
                ..s
            }
        } else if input == 'l' {
            entity_focus_step(s, EntitiesFocus::Components)
        } else {
            s
        },
        EntitiesFocus::Components => if input == 'h' {
            entity_focus_step(s, EntitiesFocus::Entities)
        } else if input == 'j' {
            EntityState { component_selected: Some(selection_down(s.component_selected, s.entity_count)), ..s }
        } else if input == 'k' {
            EntityState {
                component_selected: Some(selection_up(s.component_selected, (s.entity_count - 1) as usize)),
                ..s
            }
        } else {
            s
        },
    }
}

impl EntityState {
    /// Gives the keyboard to `focus` (see [`entity_focus_step`]).
    pub fn set_focus(&mut self, focus: EntitiesFocus)
        ensures
            *final(self) == entity_focus_step(*old(self), focus),
    {
        self.focus = focus;
        match self.focus {
            EntitiesFocus::Unfocused => {},
            EntitiesFocus::Entities => {
                if self.entity_selected.is_none() {
                    self.entity_selected = Some(0);
                }
                self.component_selected = None;
            },
            EntitiesFocus::Components => {
                self.component_selected = Some(0);
            },
        }
    }

    /// Applies a key press (see [`entity_step`]) and reports the resulting focus.
    pub fn handle_input(&mut self, input: char) -> (r: EntitiesFocus)
        requires
            entity_input_ok(*old(self), input),
        ensures
            *final(self) == entity_step(*old(self), input),
            r == final(self).focus,
    {
        match self.focus {
            EntitiesFocus::Unfocused => {},
            EntitiesFocus::Entities => {
                if input == 'h' {
                    self.set_focus(EntitiesFocus::Unfocused);
                } else if input == 'j' {
                    self.entity_selected = Some(select_down(self.entity_selected, self.entity_count));
                } else if input == 'k' {
                    let fallback = self.entity_count - 1;
                    self.entity_selected = Some(select_up(self.entity_selected, fallback));
                } else if input == 'l' {
                    self.set_focus(EntitiesFocus::Components);
                }
            },
            EntitiesFocus::Components => {
                if input == 'h' {
                    self.set_focus(EntitiesFocus::Entities);
                } else if input == 'j' {
                    self.component_selected = Some(select_down(self.component_selected, self.entity_count));
                } else if input == 'k' {
                    let fallback = self.entity_count - 1;
                    self.component_selected = Some(select_up(self.component_selected, fallback));
                }
            },
        }
        self.focus
    }
}

/// Whether the list of the resources pane has the keyboard.
#[derive(Debug, Clone, Copy, PartialEq, Eq, Structural)]
pub enum ResourcesFocus {
    /// The pane does not have the keyboard.
    Unfocused,
    List,
}

impl Default for ResourcesFocus {
    fn default() -> (r: Self)
        ensures
            r == ResourcesFocus::Unfocused,
    {
        ResourcesFocus::Unfocused
    }
}

/// Keyboard state of the resources pane.
#[derive(Debug, Clone, Copy, PartialEq, Eq, Structural)]
pub struct ResourceState {
    pub focus: ResourcesFocus,
    /// The selected row of the resource list.
    pub selected: Option<usize>,
    pub resource_count: usize,
}

impl Default for ResourceState {
    fn default() -> (r: Self)
        ensures
            r.focus == ResourcesFocus::Unfocused && r.selected is None && r.resource_count == 0,
    {
        ResourceState { focus: ResourcesFocus::Unfocused, selected: None, resource_count: 0 }
    }
}

/// The resources pane after giving the keyboard to `focus`: leaving clears the selection,
/// entering keeps it (or selects the first row).
pub open spec fn resource_focus_step(s: ResourceState, focus: ResourcesFocus) -> ResourceState {
    match focus {
        ResourcesFocus::Unfocused => ResourceState { focus, selected: None, ..s },
        ResourcesFocus::List => ResourceState {
            focus,
            selected: if s.selected is None {
                Some(0)
            } else {
                s.selected
            },
            ..s
        },
    }
}

/// Whether [`ResourceState::handle_input`] can take `input` in state `s` (moving through the
/// list needs at least one resource).
pub open spec fn resource_input_ok(s: ResourceState, input: char) -> bool {
    s.focus == ResourcesFocus::List && (input == 'j' || input == 'k') ==> s.resource_count > 0
}

/// The resources pane after `input`: in the list `h` leaves the pane and `j`/`k` move the
/// selection.
pub open spec fn resource_step(s: ResourceState, input: char) -> ResourceState {
    match s.focus {
        ResourcesFocus::Unfocused => s,
        ResourcesFocus::List => if input == 'h' {
            resource_focus_step(s, ResourcesFocus::Unfocused)
        } else if input == 'j' {
            ResourceState { selected: Some(selection_down(s.selected, s.resource_count)), ..s }
        } else if input == 'k' {
            ResourceState { selected: Some(selection_up(s.selected, (s.resource_count - 1) as usize)), ..s }
        } else {
            s
        },
    }
}

impl ResourceState {
    /// Gives the keyboard to `focus` (see [`resource_focus_step`]).
    pub fn set_focus(&mut self, focus: ResourcesFocus)
        ensures
            *final(self) == resource_focus_step(*old(self), focus),
    {
        self.focus = focus;
        match self.focus {
            ResourcesFocus::Unfocused => {
                self.selected = None;
            },
            ResourcesFocus::List => {
                if self.selected.is_none() {
                    self.selected = Some(0);
                }
            },
        }
    }

    /// Applies a key press (see [`resource_step`]) and reports the resulting focus.
    pub fn handle_input(&mut self, input: char) -> (r: ResourcesFocus)
        requires
            resource_input_ok(*old(self), input),
        ensures
            *final(self) == resource_step(*old(self), input),
            r == final(self).focus,
    {
        match self.focus {
            ResourcesFocus::Unfocused => {},
            ResourcesFocus::List => {
                if input == 'h' {
                    self.set_focus(ResourcesFocus::Unfocused);
                } else if input == 'j' {
                    self.selected = Some(select_down(self.selected, self.resource_count));
                } else if input == 'k' {
                    let fallback = self.resource_count - 1;
                    self.selected = Some(select_up(self.selected, fallback));
                }
            },
        }
        self.focus
    }
}

/// The serialized resources of the world, once they have been parsed.
#[derive(Clone)]
pub struct Resources(Option<Data>);

impl View for Resources {
    type V = Option<DataModel>;

    closed spec fn view(&self) -> Option<DataModel> {
        match &self.0 {
            Some(d) => Some(d@),
            None => None,
        }
    }
}

impl Default for Resources {
    /// No resources parsed yet.
    fn default() -> (r: Self)
        ensures
            r@ is None,
    {
        Resources(None)
    }
}

impl Resources {
    /// The parsed resources, if any.
    pub fn resources(&self) -> (r: Option<&Data>)
        ensures
            r is Some <==> self@ is Some,
            r matches Some(d) ==> self@ == Some(d@),
    {
        match &self.0 {
            Some(d) => Some(d),
            None => None,
        }
    }

    /// Mutable access to the parsed resources, if any.
    pub fn resources_mut(&mut self) -> (r: Option<&mut Data>)
        ensures
            r is Some <==> old(self)@ is Some,
            r is Some ==> old(self)@ == Some((*r->Some_0)@) && final(self)@ == Some((*final(r->Some_0))@),
            r is None ==> final(self)@ is None,
    {
        match &mut self.0 {
            Some(d) => Some(d),
            None => None,
        }
    }

    /// Keeps `resources`, the world's resources as serialized, as the parsed resources.
    pub fn parse_resources(&mut self, resources: Data)
        ensures
            final(self)@ == Some(resources@),
    {
        self.0 = Some(resources);
    }
}

/// Whether the list of the schedules pane has the keyboard.
#[derive(Debug, Clone, Copy, PartialEq, Eq, Structural)]
pub enum SchedulesFocus {
    /// The pane does not have the keyboard.
    Unfocused,
    List,
}

impl Default for SchedulesFocus {
    fn default() -> (r: Self)
        ensures
            r == SchedulesFocus::Unfocused,
    {
        SchedulesFocus::Unfocused
    }
}

/// Keyboard state of the schedules pane.
#[derive(Debug, Clone, Copy, PartialEq, Eq, Structural)]
pub struct ScheduleState {
    pub focus: SchedulesFocus,
    /// The selected row of the label list.
    pub selected: Option<usize>,
    pub label_count: usize,
}

impl Default for ScheduleState {
    fn default() -> (r: Self)
        ensures
            r.focus == SchedulesFocus::Unfocused && r.selected is None && r.label_count == 0,
    {
        ScheduleState { focus: SchedulesFocus::Unfocused, selected: None, label_count: 0 }
    }
}

/// The schedules pane after giving the keyboard to `focus`: entering selects the first row.
pub open spec fn schedule_focus_step(s: ScheduleState, focus: SchedulesFocus) -> ScheduleState {
    match focus {
        SchedulesFocus::Unfocused => ScheduleState { focus, ..s },
        SchedulesFocus::List => ScheduleState { focus, selected: Some(0), ..s },
    }
}

/// Whether [`ScheduleState::handle_input`] can take `input` in state `s` (moving through the
/// list needs at least one label).
pub open spec fn schedule_input_ok(s: ScheduleState, input: char) -> bool {
    s.focus == SchedulesFocus::List && (input == 'j' || input == 'k') ==> s.label_count > 0
}

/// The schedules pane after `input`: in the list `h` leaves the pane and `j`/`k` move the
/// selection.
pub open spec fn schedule_step(s: ScheduleState, input: char) -> ScheduleState {
    match s.focus {
        SchedulesFocus::Unfocused => s,
        SchedulesFocus::List => if input == 'h' {
            schedule_focus_step(s, SchedulesFocus::Unfocused)
        } else if input == 'j' {
            ScheduleState { selected: Some(selection_down(s.selected, s.label_count)), ..s }
        } else if input == 'k' {
            ScheduleState { selected: Some(selection_up(s.selected, (s.label_count - 1) as usize)), ..s }
        } else {
            s
        },
    }
}

impl ScheduleState {
    /// Gives the keyboard to `focus` (see [`schedule_focus_step`]).
    pub fn set_focus(&mut self, focus: SchedulesFocus)
        ensures
            *final(self) == schedule_focus_step(*old(self), focus),
    {
        self.focus = focus;
        match self.focus {
            SchedulesFocus::Unfocused => {},
            SchedulesFocus::List => {
                self.selected = Some(0);
            },
        }
    }

    /// Applies a key press (see [`schedule_step`]) and reports the resulting focus.
    pub fn handle_input(&mut self, input: char) -> (r: SchedulesFocus)
        requires
            schedule_input_ok(*old(self), input),
        ensures
            *final(self) == schedule_step(*old(self), input),
            r == final(self).focus,
    {
        match self.focus {
            SchedulesFocus::Unfocused => {},
            SchedulesFocus::List => {
                if input == 'h' {
                    self.set_focus(SchedulesFocus::Unfocused);
                } else if input == 'j' {
                    self.selected = Some(select_down(self.selected, self.label_count));
                } else if input == 'k' {
                    let fallback = self.label_count - 1;
                    self.selected = Some(select_up(self.selected, fallback));
                }
            },
        }
        self.focus
    }
}

/// The schedules pane, drawn over a [`ScheduleState`].
pub struct ScheduleDebugger;

/// Which pane of the debugger has the keyboard.
#[derive(Debug, Clone, Copy, PartialEq, Eq, Structural)]
pub enum DebuggerFocus {
    RootTabs,
    Archetypes,
    Entities,
    Resources,
    Schedules,
}

impl Default for DebuggerFocus {
    fn default() -> (r: Self)
        ensures
            r == DebuggerFocus::RootTabs,
    {
        DebuggerFocus::RootTabs
    }
}

/// The debugger's top-level tabs.
#[derive(Debug, Clone, Copy, PartialEq, Eq, Structural)]
pub enum RootTabs {
    Archetype,
    Entity,
    Resource,
    Schedule,
}

impl Default for RootTabs {
    fn default() -> (r: Self)
        ensures
            r == RootTabs::Archetype,
    {
        RootTabs::Archetype
    }
}

/// The tab after `t`, wrapping round from the last to the first.
pub open spec fn tab_after(t: RootTabs) -> RootTabs {
    match t {
        RootTabs::Archetype => RootTabs::Entity,
        RootTabs::Entity => RootTabs::Resource,
        RootTabs::Resource => RootTabs::Schedule,
        RootTabs::Schedule => RootTabs::Archetype,
    }
}

/// The tab before `t`, wrapping round from the first to the last.
pub open spec fn tab_before(t: RootTabs) -> RootTabs {
    match t {
        RootTabs::Archetype => RootTabs::Schedule,
        RootTabs::Entity => RootTabs::Archetype,
        RootTabs::Resource => RootTabs::Entity,
        RootTabs::Schedule => RootTabs::Resource,
    }
}

/// The position of a tab among the root tabs.
pub open spec fn tab_position(t: RootTabs) -> usize {
    match t {
        RootTabs::Archetype => 0,
        RootTabs::Entity => 1,
        RootTabs::Resource => 2,
        RootTabs::Schedule => 3,
    }
}

/// The position of a tab among the root tabs, for highlighting it.
pub fn tab_index(t: RootTabs) -> (r: usize)
    ensures
        r == tab_position(t),
{
    match t {
        RootTabs::Archetype => 0,
        RootTabs::Entity => 1,
        RootTabs::Resource => 2,
        RootTabs::Schedule => 3,
    }
}

/// Internal state for the debug UI: the active tab, which pane has the keyboard, and the
/// state of each pane.
#[derive(Debug, Clone, Copy, PartialEq, Eq, Structural)]
pub struct TuiDebuggerState {
    pub active_tab: RootTabs,
    pub focus: DebuggerFocus,
    pub archetype_state: ArchetypeState,
    pub entity_state: EntityState,
    pub resource_state: ResourceState,
    pub schedule_state: ScheduleState,
}

impl Default for TuiDebuggerState {
    fn default() -> (r: Self)
        ensures
            r.active_tab == RootTabs::Archetype,
            r.focus == DebuggerFocus::RootTabs,
            r.archetype_state == (ArchetypeState {
                focus: ArchetypesFocus::Unfocused,
                table_selected: None,
                active_table: 0,
                archetype_count: 0,
                entity_count: 0,
            }),
            r.entity_state == (EntityState {
                focus: EntitiesFocus::Unfocused,
                entity_selected: None,
                component_selected: None,
                entity_count: 0,
            }),
            r.resource_state == (ResourceState { focus: ResourcesFocus::Unfocused, selected: None, resource_count: 0 }),
            r.schedule_state == (ScheduleState { focus: SchedulesFocus::Unfocused, selected: None, label_count: 0 }),
    {
        TuiDebuggerState {
            active_tab: RootTabs::Archetype,
            focus: DebuggerFocus::RootTabs,
            archetype_state: ArchetypeState::default(),
            entity_state: EntityState::default(),
            resource_state: ResourceState::default(),
            schedule_state: ScheduleState::default(),
        }
    }
}

/// Whether [`TuiDebuggerState::handle_input`] can take `input` in state `s`: whether the pane
/// with the keyboard can take it.
pub open spec fn debugger_input_ok(s: TuiDebuggerState, input: char) -> bool {
    match s.focus {
        DebuggerFocus::RootTabs => true,
        DebuggerFocus::Archetypes => archetype_input_ok(s.archetype_state, input),
        DebuggerFocus::Entities => entity_input_ok(s.entity_state, input),
        DebuggerFocus::Resources => resource_input_ok(s.resource_state, input),
        DebuggerFocus::Schedules => schedule_input_ok(s.schedule_state, input),
    }
}

/// The debugger after `input`: on the root tabs `h`/`l` move between tabs and `j` hands the
/// keyboard to the active tab's pane; otherwise the pane with the keyboard takes the input,
/// and the keyboard returns to the root tabs when the pane lets it go.
pub open spec fn debugger_step(s: TuiDebuggerState, input: char) -> TuiDebuggerState {
    match s.focus {
        DebuggerFocus::RootTabs => if input == 'h' {
            TuiDebuggerState { active_tab: tab_before(s.active_tab), ..s }
        } else if input == 'l' {
            TuiDebuggerState { active_tab: tab_after(s.active_tab), ..s }
        } else if input == 'j' {
            match s.active_tab {
                RootTabs::Archetype => TuiDebuggerState {
                    archetype_state: ArchetypeState { focus: ArchetypesFocus::Tabs, ..s.archetype_state },
                    focus: DebuggerFocus::Archetypes,
                    ..s
                },
                RootTabs::Entity => TuiDebuggerState {
                    entity_state: entity_focus_step(s.entity_state, EntitiesFocus::Entities),
                    focus: DebuggerFocus::Entities,
                    ..s
                },
                RootTabs::Resource => TuiDebuggerState {
                    resource_state: resource_focus_step(s.resource_state, ResourcesFocus::List),
                    focus: DebuggerFocus::Resources,
                    ..s
                },
                RootTabs::Schedule => TuiDebuggerState {
                    schedule_state: schedule_focus_step(s.schedule_state, SchedulesFocus::List),
                    focus: DebuggerFocus::Schedules,
                    ..s
                },
            }
        } else {
            s
        },
        DebuggerFocus::Archetypes => {
            let a = archetype_step(s.archetype_state, input);
            TuiDebuggerState {
                archetype_state: a,
                focus: if a.focus == ArchetypesFocus::Unfocused {
                    DebuggerFocus::RootTabs
                } else {
                    s.focus
                },
                ..s
            }
        },
        DebuggerFocus::Entities => {
            let e = entity_step(s.entity_state, input);
            TuiDebuggerState {
                entity_state: e,
                focus: if e.focus == EntitiesFocus::Unfocused {
                    DebuggerFocus::RootTabs
                } else {
                    s.focus
                },
                ..s
            }
        },
        DebuggerFocus::Resources => {
            let r = resource_step(s.resource_state, input);
            TuiDebuggerState {
                resource_state: r,
                focus: if r.focus == ResourcesFocus::Unfocused {
                    DebuggerFocus::RootTabs
                } else {
                    s.focus
                },
                ..s
            }
        },
        DebuggerFocus::Schedules => {
            let c = schedule_step(s.schedule_state, input);
            TuiDebuggerState {
                schedule_state: c,
                focus: if c.focus == SchedulesFocus::Unfocused {
                    DebuggerFocus::RootTabs
                } else {
                    s.focus
                },
                ..s
            }
        },
    }
}

impl TuiDebuggerState {
    /// Whether [`TuiDebuggerState::handle_input`] can take `input` (see [`debugger_input_ok`]).
    pub fn can_handle_input(&self, input: char) -> (r: bool)
        ensures
            r == debugger_input_ok(*self, input),
    {
        match self.focus {
            DebuggerFocus::RootTabs => true,
            DebuggerFocus::Archetypes => match self.archetype_state.focus {
                ArchetypesFocus::Tabs => !(input == 'h' || input == 'l') || self.archetype_state.archetype_count > 0,
                ArchetypesFocus::Table => input != 'j' || self.archetype_state.entity_count > 0,
                ArchetypesFocus::Unfocused => true,
            },
            DebuggerFocus::Entities => !(self.entity_state.focus != EntitiesFocus::Unfocused && (input == 'j'
                || input == 'k')) || self.entity_state.entity_count > 0,
            DebuggerFocus::Resources => !(self.resource_state.focus == ResourcesFocus::List && (input == 'j'
                || input == 'k')) || self.resource_state.resource_count > 0,
            DebuggerFocus::Schedules => !(self.schedule_state.focus == SchedulesFocus::List && (input == 'j'
                || input == 'k')) || self.schedule_state.label_count > 0,
        }
    }

    /// Applies a key press (see [`debugger_step`]).
    pub fn handle_input(&mut self, input: char)
        requires
            debugger_input_ok(*old(self), input),
        ensures
            *final(self) == debugger_step(*old(self), input),
    {
        match self.focus {
            DebuggerFocus::RootTabs => {
                if input == 'h' {
                    self.prev_tab();
                } else if input == 'l' {
                    self.next_tab();
                } else if input == 'j' {
                    match self.active_tab {
                        RootTabs::Archetype => {
                            self.archetype_state.set_focus(ArchetypesFocus::Tabs);
                            self.focus = DebuggerFocus::Archetypes;
                        },
                        RootTabs::Entity => {
                            self.entity_state.set_focus(EntitiesFocus::Entities);
                            self.focus = DebuggerFocus::Entities;
                        },
                        RootTabs::Resource => {
                            self.resource_state.set_focus(ResourcesFocus::List);
                            self.focus = DebuggerFocus::Resources;
                        },
                        RootTabs::Schedule => {
                            self.schedule_state.set_focus(SchedulesFocus::List);
                            self.focus = DebuggerFocus::Schedules;
                        },
                    }
                }
            },
            DebuggerFocus::Archetypes => {
                let new_focus = self.archetype_state.handle_input(input);
                if let ArchetypesFocus::Unfocused = new_focus {
                    self.focus = DebuggerFocus::RootTabs;
                }
            },
            DebuggerFocus::Entities => {
                let new_focus = self.entity_state.handle_input(input);
                if let EntitiesFocus::Unfocused = new_focus {
                    self.focus = DebuggerFocus::RootTabs;
                }
            },
            DebuggerFocus::Resources => {
                let new_focus = self.resource_state.handle_input(input);
                if let ResourcesFocus::Unfocused = new_focus {
                    self.focus = DebuggerFocus::RootTabs;
                }
            },
            DebuggerFocus::Schedules => {
                let new_focus = self.schedule_state.handle_input(input);
                if let SchedulesFocus::Unfocused = new_focus {
                    self.focus = DebuggerFocus::RootTabs;
                }
            },
        }
    }

    /// Makes the next tab active, wrapping round from the last to the first.
    pub fn next_tab(&mut self)
        ensures
            *final(self) == (TuiDebuggerState { active_tab: tab_after(old(self).active_tab), ..*old(self) }),
    {
        self.active_tab = match self.active_tab {
            RootTabs::Archetype => RootTabs::Entity,
            RootTabs::Entity => RootTabs::Resource,
            RootTabs::Resource => RootTabs::Schedule,
            RootTabs::Schedule => RootTabs::Archetype,
        }
    }

    /// Makes the previous tab active, wrapping round from the first to the last.
    pub fn prev_tab(&mut self)
        ensures
            *final(self) == (TuiDebuggerState { active_tab: tab_before(old(self).active_tab), ..*old(self) }),
    {
        self.active_tab = match self.active_tab {
            RootTabs::Archetype => RootTabs::Schedule,
            RootTabs::Entity => RootTabs::Archetype,
            RootTabs::Resource => RootTabs::Entity,
            RootTabs::Schedule => RootTabs::Resource,
        }
    }
}

/// The single entry of the top-level map that serializing a world produces.
pub fn parse_world_data(world: Data) -> (r: (Data, Data))
    requires
        world@ is Mapping,
        world@->Mapping_0.len() > 0,
    ensures
        (r.0@, r.1@) == world@->Mapping_0.last(),
{
    match world {
        Data::Mapping(mut entries) => {
            let ghost before = entries@;
            assert(world@->Mapping_0 == pair_models(before));
            entries.pop().unwrap()
        },
        _ => {
            proof {
                assert(false);
            }
            (Data::Unit, Data::Unit)
        },
    }
}

/// Moving to the next tab and back, or back and forward, returns to the same tab; four moves
/// in one direction go all the way round.
pub proof fn law_tabs_cycle(t: RootTabs)
    ensures
        tab_before(tab_after(t)) == t,
        tab_after(tab_before(t)) == t,
        tab_after(tab_after(tab_after(tab_after(t)))) == t,
        tab_position(tab_after(t)) == (tab_position(t) + 1) % 4,
{
}

/// A list selection moved down stays within a list of `count` rows; moved up it goes one row
/// up, or to the fallback from the first row.
pub proof fn law_selection_in_range(selected: Option<usize>, count: usize, fallback: usize)
    requires
        count > 0,
    ensures
        selection_down(selected, count) < count,
        selection_up(selected, fallback) == match selected {
            Some(i) => if i >= 1 {
                (i - 1) as usize
            } else {
                fallback
            },
            None => fallback,
        },
{
}

/// On the root tabs, `h` then `l` (or `l` then `h`) leaves the debugger as it was.
pub proof fn law_root_tabs_round_trip(s: TuiDebuggerState)
    requires
        s.focus == DebuggerFocus::RootTabs,
    ensures
        debugger_step(debugger_step(s, 'h'), 'l') == s,
        debugger_step(debugger_step(s, 'l'), 'h') == s,
{
}

/// Entering a pane with `j` from the root tabs and leaving it with `h` (or, for the
/// archetypes pane, `k`) gives the keyboard back to the root tabs.
pub proof fn law_enter_and_leave_pane(s: TuiDebuggerState)
    requires
        s.focus == DebuggerFocus::RootTabs,
    ensures
        ({
            let inside = debugger_step(s, 'j');
            let leave = if s.active_tab == RootTabs::Archetype {
                'k'
            } else {
                'h'
            };
            debugger_step(inside, leave).focus == DebuggerFocus::RootTabs && debugger_step(
                inside,
                leave,
            ).active_tab == s.active_tab
        }),
{
}

/// A pane without the keyboard ignores every key.
pub proof fn law_unfocused_panes_ignore_input(
    a: ArchetypeState,
    e: EntityState,
    r: ResourceState,
    c: ScheduleState,
    input: char,
)
    requires
        a.focus == ArchetypesFocus::Unfocused,
        e.focus == EntitiesFocus::Unfocused,
        r.focus == ResourcesFocus::Unfocused,
        c.focus == SchedulesFocus::Unfocused,
    ensures
        archetype_step(a, input) == a,
        entity_step(e, input) == e,
        resource_step(r, input) == r,
        schedule_step(c, input) == c,
{
}

/// The row below row `i` in a list of `count` rows, wrapping round from the last to the first.
pub open spec fn row_below(i: usize, count: usize) -> usize {
    if i + 1 < count {
        (i + 1) as usize
    } else {
        0
    }
}

/// The row above row `i`, or `top` from the first row.
pub open spec fn row_above(i: usize, top: usize) -> usize {
    if i > 0 {
        (i - 1) as usize
    } else {
        top
    }
}

/// Moving down from row `i` of a list of `count` rows lands on the row below it.
proof fn lemma_selection_down_row(i: usize, count: usize)
    requires
        i < count,
    ensures
        selection_down(Some(i), count) == row_below(i, count),
{
    if i + 1 < count {
        vstd::arithmetic::div_mod::lemma_small_mod((i + 1) as nat, count as nat);
    } else {
        vstd::arithmetic::div_mod::lemma_mod_self_0(count as int);
    }
}

/// In the resource list, `j` moves the selection one row down (from the last row to the first)
/// and `k` one row up (from the first row to the last), changing nothing else; either key
/// undoes the other.
pub proof fn law_resource_list_keys(s: ResourceState, i: usize)
    requires
        s.focus == ResourcesFocus::List,
        s.selected == Some(i),
        i < s.resource_count,
    ensures
        resource_step(s, 'j') == (ResourceState { selected: Some(row_below(i, s.resource_count)), ..s }),
        resource_step(s, 'k') == (ResourceState { selected: Some(row_above(i, (s.resource_count - 1) as usize)), ..s }),
        resource_step(resource_step(s, 'j'), 'k') == s,
        resource_step(resource_step(s, 'k'), 'j') == s,
{
    lemma_selection_down_row(i, s.resource_count);
    lemma_selection_down_row(row_above(i, (s.resource_count - 1) as usize), s.resource_count);
}

/// In the schedule's label list, `j` and `k` move the selection as in the resource list.
pub proof fn law_schedule_list_keys(s: ScheduleState, i: usize)
    requires
        s.focus == SchedulesFocus::List,
        s.selected == Some(i),
        i < s.label_count,
    ensures
        schedule_step(s, 'j') == (ScheduleState { selected: Some(row_below(i, s.label_count)), ..s }),
        schedule_step(s, 'k') == (ScheduleState { selected: Some(row_above(i, (s.label_count - 1) as usize)), ..s }),
        schedule_step(schedule_step(s, 'j'), 'k') == s,
        schedule_step(schedule_step(s, 'k'), 'j') == s,
{
    lemma_selection_down_row(i, s.label_count);
    lemma_selection_down_row(row_above(i, (s.label_count - 1) as usize), s.label_count);
}

/// In the entity list and in the component list, `j` and `k` move that list's selection as in
/// the resource list.
pub proof fn law_entity_lists_keys(s: EntityState, i: usize)
    requires
        s.focus != EntitiesFocus::Unfocused,
        i < s.entity_count,
        s.focus == EntitiesFocus::Entities ==> s.entity_selected == Some(i),
        s.focus == EntitiesFocus::Components ==> s.component_selected == Some(i),
    ensures
        s.focus == EntitiesFocus::Entities ==> entity_step(s, 'j') == (EntityState {
            entity_selected: Some(row_below(i, s.entity_count)),
            ..s
        }) && entity_step(s, 'k') == (EntityState {
            entity_selected: Some(row_above(i, (s.entity_count - 1) as usize)),
            ..s
        }),
        s.focus == EntitiesFocus::Components ==> entity_step(s, 'j') == (EntityState {
            component_selected: Some(row_below(i, s.entity_count)),
            ..s
        }) && entity_step(s, 'k') == (EntityState {
            component_selected: Some(row_above(i, (s.entity_count - 1) as usize)),
            ..s
        }),
        entity_step(entity_step(s, 'j'), 'k') == s,
        entity_step(entity_step(s, 'k'), 'j') == s,
{
    lemma_selection_down_row(i, s.entity_count);
    lemma_selection_down_row(row_above(i, (s.entity_count - 1) as usize), s.entity_count);
}

/// In the archetype tabs, `l` and `h` move to the next and previous tab, wrapping round, and
/// undo each other; in the table, `j` moves the selection one row down (from the last row to
/// the first) and `k` one row up, from the first row to the row count.
pub proof fn law_archetype_keys(s: ArchetypeState, i: usize)
    requires
        s.focus != ArchetypesFocus::Unfocused,
        s.focus == ArchetypesFocus::Tabs ==> s.active_table == i && i < s.archetype_count,
        s.focus == ArchetypesFocus::Table ==> s.table_selected == Some(i) && i < s.entity_count,
    ensures
        s.focus == ArchetypesFocus::Tabs ==> archetype_step(s, 'l') == (ArchetypeState {
            active_table: row_below(i, s.archetype_count),
            ..s
        }) && archetype_step(s, 'h') == (ArchetypeState {
            active_table: row_above(i, (s.archetype_count - 1) as usize),
            ..s
        }) && archetype_step(archetype_step(s, 'l'), 'h') == s && archetype_step(archetype_step(s, 'h'), 'l')
            == s,
        s.focus == ArchetypesFocus::Table ==> archetype_step(s, 'j') == (ArchetypeState {
            table_selected: Some(row_below(i, s.entity_count)),
            ..s
        }) && archetype_step(s, 'k') == (ArchetypeState { table_selected: Some(row_above(i, s.entity_count)), ..s }),
        s.focus == ArchetypesFocus::Table && i + 1 < s.entity_count ==> archetype_step(
            archetype_step(s, 'j'),
            'k',
        ) == s,
        s.focus == ArchetypesFocus::Table && i > 0 ==> archetype_step(archetype_step(s, 'k'), 'j') == s,
{
    if s.focus == ArchetypesFocus::Tabs {
        lemma_selection_down_row(i, s.archetype_count);
        lemma_selection_down_row(row_above(i, (s.archetype_count - 1) as usize), s.archetype_count);
    } else {
        lemma_selection_down_row(i, s.entity_count);
        if i > 0 {
            lemma_selection_down_row((i - 1) as usize, s.entity_count);
        }
    }
}

/// With the keyboard in the resources pane's list, `j` and `k` move that list's selection down
/// and up and change nothing else in the debugger; likewise in the schedules pane.
pub proof fn law_debugger_moves_focused_list(s: TuiDebuggerState, i: usize)
    requires
        s.focus == DebuggerFocus::Resources ==> s.resource_state.focus == ResourcesFocus::List
            && s.resource_state.selected == Some(i) && i < s.resource_state.resource_count,
        s.focus == DebuggerFocus::Schedules ==> s.schedule_state.focus == SchedulesFocus::List
            && s.schedule_state.selected == Some(i) && i < s.schedule_state.label_count,
    ensures
        s.focus == DebuggerFocus::Resources ==> debugger_step(s, 'j') == (TuiDebuggerState {
            resource_state: ResourceState {
                selected: Some(row_below(i, s.resource_state.resource_count)),
                ..s.resource_state
            },
            ..s
        }) && debugger_step(s, 'k') == (TuiDebuggerState {
            resource_state: ResourceState {
                selected: Some(row_above(i, (s.resource_state.resource_count - 1) as usize)),
                ..s.resource_state
            },
            ..s
        }),
        s.focus == DebuggerFocus::Schedules ==> debugger_step(s, 'j') == (TuiDebuggerState {
            schedule_state: ScheduleState { selected: Some(row_below(i, s.schedule_state.label_count)), ..s.schedule_state },
            ..s
        }) && debugger_step(s, 'k') == (TuiDebuggerState {
            schedule_state: ScheduleState {
                selected: Some(row_above(i, (s.schedule_state.label_count - 1) as usize)),
                ..s.schedule_state
            },
            ..s
        }),
{
    if s.focus == DebuggerFocus::Resources {
        law_resource_list_keys(s.resource_state, i);
    }
    if s.focus == DebuggerFocus::Schedules {
        law_schedule_list_keys(s.schedule_state, i);
    }
}

} // verus!
