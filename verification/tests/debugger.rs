use reflection::data::Data;
use reflection::debugger::{
    parse_world_data, tab_index, ArchetypesFocus, DebuggerFocus, EntitiesFocus, EntityState, ResourceState,
    Resources, ResourcesFocus, RootTabs, ScheduleState, SchedulesFocus, TuiDebuggerState,
};

#[test]
fn root_tabs_cycle() {
    let mut s = TuiDebuggerState::default();
    assert_eq!(s.active_tab, RootTabs::Archetype);
    assert_eq!(s.focus, DebuggerFocus::RootTabs);
    s.handle_input('l');
    assert_eq!(s.active_tab, RootTabs::Entity);
    s.handle_input('l');
    s.handle_input('l');
    assert_eq!(s.active_tab, RootTabs::Schedule);
    s.handle_input('l');
    assert_eq!(s.active_tab, RootTabs::Archetype);
    s.handle_input('h');
    assert_eq!(s.active_tab, RootTabs::Schedule);
    s.next_tab();
    assert_eq!(s.active_tab, RootTabs::Archetype);
    s.prev_tab();
    assert_eq!(s.active_tab, RootTabs::Schedule);
}

#[test]
fn tab_indices() {
    assert_eq!(tab_index(RootTabs::Archetype), 0);
    assert_eq!(tab_index(RootTabs::Entity), 1);
    assert_eq!(tab_index(RootTabs::Resource), 2);
    assert_eq!(tab_index(RootTabs::Schedule), 3);
}

#[test]
fn enter_and_leave_archetypes() {
    let mut s = TuiDebuggerState::default();
    s.handle_input('j');
    assert_eq!(s.focus, DebuggerFocus::Archetypes);
    assert_eq!(s.archetype_state.focus, ArchetypesFocus::Tabs);
    s.handle_input('k');
    assert_eq!(s.focus, DebuggerFocus::RootTabs);
    assert_eq!(s.archetype_state.focus, ArchetypesFocus::Unfocused);
}

#[test]
fn archetype_table_selection() {
    let mut s = TuiDebuggerState::default();
    s.archetype_state.archetype_count = 3;
    s.archetype_state.entity_count = 2;
    s.handle_input('j');
    s.handle_input('l');
    assert_eq!(s.archetype_state.active_table, 1);
    s.handle_input('h');
    s.handle_input('h');
    assert_eq!(s.archetype_state.active_table, 2);
    s.handle_input('j');
    assert_eq!(s.archetype_state.focus, ArchetypesFocus::Table);
    assert_eq!(s.archetype_state.table_selected, Some(0));
    s.handle_input('j');
    assert_eq!(s.archetype_state.table_selected, Some(1));
    s.handle_input('j');
    assert_eq!(s.archetype_state.table_selected, Some(0));
    s.handle_input('h');
    assert_eq!(s.archetype_state.focus, ArchetypesFocus::Tabs);
    assert_eq!(s.archetype_state.table_selected, None);
}

#[test]
fn entities_pane() {
    let mut s = TuiDebuggerState::default();
    s.entity_state.entity_count = 2;
    s.handle_input('l');
    s.handle_input('j');
    assert_eq!(s.focus, DebuggerFocus::Entities);
    assert_eq!(s.entity_state.focus, EntitiesFocus::Entities);
    assert_eq!(s.entity_state.entity_selected, Some(0));
    s.handle_input('k');
    assert_eq!(s.entity_state.entity_selected, Some(1));
    s.handle_input('l');
    assert_eq!(s.entity_state.focus, EntitiesFocus::Components);
    assert_eq!(s.entity_state.component_selected, Some(0));
    s.handle_input('h');
    assert_eq!(s.entity_state.focus, EntitiesFocus::Entities);
    assert_eq!(s.entity_state.component_selected, None);
    s.handle_input('h');
    assert_eq!(s.focus, DebuggerFocus::RootTabs);
}

#[test]
fn resources_and_schedules_panes() {
    let mut r = ResourceState::default();
    r.resource_count = 3;
    r.set_focus(ResourcesFocus::List);
    assert_eq!(r.selected, Some(0));
    assert_eq!(r.handle_input('k'), ResourcesFocus::List);
    assert_eq!(r.selected, Some(2));
    assert_eq!(r.handle_input('h'), ResourcesFocus::Unfocused);
    assert_eq!(r.selected, None);

    let mut q = ScheduleState::default();
    q.label_count = 2;
    q.set_focus(SchedulesFocus::List);
    assert_eq!(q.handle_input('j'), SchedulesFocus::List);
    assert_eq!(q.selected, Some(1));
    assert_eq!(q.handle_input('h'), SchedulesFocus::Unfocused);

    let mut e = EntityState::default();
    e.set_focus(EntitiesFocus::Entities);
    assert_eq!(e.entity_selected, Some(0));
}

#[test]
fn unfocused_pane_ignores_input() {
    let mut r = ResourceState::default();
    assert_eq!(r.handle_input('j'), ResourcesFocus::Unfocused);
    assert_eq!(r.selected, None);
}

#[test]
fn world_data_is_the_last_entry() {
    let world = Data::Mapping(vec![
        (Data::String("a".to_string()), Data::U8(1)),
        (Data::String("world".to_string()), Data::Sequence(vec![])),
    ]);
    let (k, v) = parse_world_data(world);
    assert!(k == Data::String("world".to_string()));
    assert!(v == Data::Sequence(vec![]));
}

#[test]
fn resources_hold_parsed_data() {
    let mut r = Resources::default();
    assert!(r.resources().is_none());
    assert!(r.resources_mut().is_none());
    r.parse_resources(Data::U64(7));
    assert!(*r.resources().unwrap() == Data::U64(7));
    *r.resources_mut().unwrap() = Data::U64(8);
    assert!(*r.resources().unwrap() == Data::U64(8));
}

#[test]
fn input_checks() {
    let mut s = TuiDebuggerState::default();
    assert!(s.can_handle_input('l'));
    s.handle_input('j');
    assert!(!s.can_handle_input('l'));
    assert!(s.can_handle_input('k'));
    s.archetype_state.archetype_count = 1;
    assert!(s.can_handle_input('l'));
}
