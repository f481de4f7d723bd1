use noa_app::applescript::{
    int64_bytes, int64_value, close_plan, fourcc, frontmost_target, handler_events, read_property, resolve, route_event,
    specifier_form, split_direction, tab_focus_target, tab_target, terminal_target, window_target,
    AeVerb, AppStateSnapshot, ClosePlan, PropertyValue, Reference, Resolved, Sel2, SpecifierForm,
    SplitDirection, TabSnapshot, TerminalSnapshot, WindowSnapshot, CLASS_CORE, CLASS_MISC,
    CLASS_NOA, CLS_TAB, CLS_TERMINAL, CLS_WINDOW, CMD_ACTIVATE_WINDOW, CMD_FOCUS, CMD_INPUT_TEXT,
    CMD_NEW_TAB, CMD_NEW_WINDOW, CMD_PERFORM_ACTION, CMD_SELECT_TAB, CMD_SPLIT, DIR_DOWN, DIR_LEFT,
    DIR_RIGHT, DIR_UP, EVENT_NOT_HANDLED, EVT_ACTIVATE, EVT_CLOSE, EVT_GET_DATA,
    FORM_ABSOLUTE_POSITION, FORM_PROPERTY_ID, FORM_UNIQUE_ID, NO_SUCH_OBJECT, PARAM_MISSED,
    PROP_FRONTMOST, PROP_ID, PROP_INDEX, PROP_NAME, PROP_SELECTED, PROP_VERSION,
    PROP_WORKING_DIRECTORY, TYPE_NULL, TYPE_OBJECT_SPECIFIER, TYPE_PROPERTY,
};

#[test]
fn fourcc_packs_big_endian() {
    assert_eq!(fourcc(b"----"), 0x2D2D_2D2D);
    assert_eq!(fourcc(b"ID  "), 0x4944_2020);
}

#[test]
fn code_constants_are_the_fourcc_of_their_names() {
    let table: [(&[u8], u32); 33] = [
        (b"noaX", CLASS_NOA),
        (b"core", CLASS_CORE),
        (b"misc", CLASS_MISC),
        (b"nwin", CMD_NEW_WINDOW),
        (b"ntab", CMD_NEW_TAB),
        (b"splt", CMD_SPLIT),
        (b"focs", CMD_FOCUS),
        (b"actw", CMD_ACTIVATE_WINDOW),
        (b"stab", CMD_SELECT_TAB),
        (b"inpt", CMD_INPUT_TEXT),
        (b"pact", CMD_PERFORM_ACTION),
        (b"getd", EVT_GET_DATA),
        (b"actv", EVT_ACTIVATE),
        (b"clos", EVT_CLOSE),
        (b"cwin", CLS_WINDOW),
        (b"cTab", CLS_TAB),
        (b"cTrm", CLS_TERMINAL),
        (b"pnam", PROP_NAME),
        (b"ID  ", PROP_ID),
        (b"pidx", PROP_INDEX),
        (b"selc", PROP_SELECTED),
        (b"vers", PROP_VERSION),
        (b"pisf", PROP_FRONTMOST),
        (b"pwd ", PROP_WORKING_DIRECTORY),
        (b"rite", DIR_RIGHT),
        (b"left", DIR_LEFT),
        (b"down", DIR_DOWN),
        (b"up  ", DIR_UP),
        (b"null", TYPE_NULL),
        (b"obj ", TYPE_OBJECT_SPECIFIER),
        (b"prop", TYPE_PROPERTY),
        (b"indx", FORM_ABSOLUTE_POSITION),
        (b"ID  ", FORM_UNIQUE_ID),
    ];
    for (name, code) in table {
        assert_eq!(fourcc(name), code, "{:?}", std::str::from_utf8(name));
    }
    assert_eq!(fourcc(b"prop"), FORM_PROPERTY_ID);
}

#[test]
fn events_route_to_their_verbs() {
    assert_eq!(route_event(CLASS_CORE, EVT_GET_DATA), Ok(AeVerb::GetData));
    assert_eq!(route_event(CLASS_CORE, EVT_CLOSE), Ok(AeVerb::Close));
    assert_eq!(route_event(CLASS_CORE, CMD_SPLIT), Err(EVENT_NOT_HANDLED));
    assert_eq!(route_event(CLASS_MISC, EVT_ACTIVATE), Ok(AeVerb::Activate));
    assert_eq!(route_event(CLASS_MISC, EVT_CLOSE), Err(EVENT_NOT_HANDLED));
    assert_eq!(route_event(CLASS_NOA, CMD_SPLIT), Ok(AeVerb::Split));
    assert_eq!(route_event(CLASS_NOA, CMD_ACTIVATE_WINDOW), Ok(AeVerb::ActivateWindow));
    assert_eq!(route_event(CLASS_NOA, EVT_GET_DATA), Err(EVENT_NOT_HANDLED));
    assert_eq!(route_event(fourcc(b"zzzz"), CMD_SPLIT), Err(EVENT_NOT_HANDLED));
}

#[test]
fn every_registered_event_routes_to_a_verb() {
    let events = handler_events();
    assert_eq!(events.len(), 11);
    for (class, id) in events {
        assert!(route_event(class, id).is_ok());
    }
}

#[test]
fn split_directions_and_specifier_forms() {
    assert_eq!(split_direction(DIR_RIGHT), Ok(SplitDirection::Right));
    assert_eq!(split_direction(DIR_UP), Ok(SplitDirection::Up));
    assert_eq!(split_direction(fourcc(b"diag")), Err(PARAM_MISSED));
    assert_eq!(specifier_form(TYPE_PROPERTY, FORM_ABSOLUTE_POSITION), SpecifierForm::Property);
    assert_eq!(specifier_form(CLS_TAB, FORM_PROPERTY_ID), SpecifierForm::Property);
    assert_eq!(specifier_form(CLS_TAB, FORM_ABSOLUTE_POSITION), SpecifierForm::Index);
    assert_eq!(specifier_form(CLS_TAB, FORM_UNIQUE_ID), SpecifierForm::Id);
    assert_eq!(specifier_form(CLS_TAB, fourcc(b"rang")), SpecifierForm::Unsupported);
}

fn terminal(id: u64, index: usize, selected: bool, cwd: Option<&str>) -> TerminalSnapshot {
    TerminalSnapshot {
        id,
        name: format!("term{id}"),
        index,
        selected,
        cwd: cwd.map(str::to_string),
    }
}

fn snapshot() -> AppStateSnapshot {
    AppStateSnapshot {
        frontmost: true,
        version: "1.2.3".to_string(),
        windows: vec![
            WindowSnapshot {
                id: 7,
                name: "main".to_string(),
                index: 1,
                tabs: vec![
                    TabSnapshot {
                        id: 0x8000_0000_0000_0001,
                        name: "build".to_string(),
                        index: 1,
                        selected: false,
                        terminals: vec![terminal(11, 1, false, None), terminal(12, 2, true, Some("/src"))],
                    },
                    TabSnapshot {
                        id: 21,
                        name: "logs".to_string(),
                        index: 2,
                        selected: true,
                        terminals: vec![terminal(31, 1, false, None)],
                    },
                ],
            },
            WindowSnapshot { id: 8, name: "empty".to_string(), index: 2, tabs: vec![] },
        ],
    }
}

fn window(sel: Sel2) -> Reference {
    Reference::Element { class: CLS_WINDOW, selector: sel, container: Box::new(Reference::App) }
}

fn tab(w: Sel2, t: Sel2) -> Reference {
    Reference::Element { class: CLS_TAB, selector: t, container: Box::new(window(w)) }
}

fn term(w: Sel2, t: Sel2, k: Sel2) -> Reference {
    Reference::Element { class: CLS_TERMINAL, selector: k, container: Box::new(tab(w, t)) }
}

fn prop(code: u32, of: Reference) -> Reference {
    Reference::Property { code, container: Box::new(of) }
}

#[test]
fn specifiers_resolve_by_index_and_by_id() {
    let s = snapshot();
    assert_eq!(resolve(&Reference::App, &s), Some(Resolved::App));
    assert_eq!(resolve(&window(Sel2::Index(2)), &s), Some(Resolved::Window(1)));
    assert_eq!(resolve(&window(Sel2::Id(7)), &s), Some(Resolved::Window(0)));
    assert_eq!(resolve(&window(Sel2::Index(0)), &s), None);
    assert_eq!(resolve(&window(Sel2::Index(-1)), &s), None);
    assert_eq!(resolve(&tab(Sel2::Index(1), Sel2::Index(2)), &s), Some(Resolved::Tab(0, 1)));
    // A tab id past i64::MAX round-trips through its raw 64-bit pattern.
    let high = 0x8000_0000_0000_0001u64 as i64;
    assert_eq!(resolve(&tab(Sel2::Index(1), Sel2::Id(high)), &s), Some(Resolved::Tab(0, 0)));
    assert_eq!(
        resolve(&term(Sel2::Index(1), Sel2::Index(1), Sel2::Id(12)), &s),
        Some(Resolved::Terminal(0, 0, 1))
    );
    // A terminal directly under a window does not resolve.
    let bad = Reference::Element {
        class: CLS_TERMINAL,
        selector: Sel2::Index(1),
        container: Box::new(window(Sel2::Index(1))),
    };
    assert_eq!(resolve(&bad, &s), None);
    // An unknown class does not resolve.
    let unknown = Reference::Element {
        class: fourcc(b"cxyz"),
        selector: Sel2::Index(1),
        container: Box::new(Reference::App),
    };
    assert_eq!(resolve(&unknown, &s), None);
}

#[test]
fn properties_read_from_the_snapshot() {
    let s = snapshot();
    assert_eq!(read_property(&prop(PROP_NAME, Reference::App), &s), Ok(PropertyValue::Text("Noa".to_string())));
    assert_eq!(read_property(&prop(PROP_VERSION, Reference::App), &s), Ok(PropertyValue::Text("1.2.3".to_string())));
    assert_eq!(read_property(&prop(PROP_FRONTMOST, Reference::App), &s), Ok(PropertyValue::Flag(true)));
    assert_eq!(read_property(&prop(PROP_ID, Reference::App), &s), Err(NO_SUCH_OBJECT));
    assert_eq!(read_property(&prop(PROP_INDEX, window(Sel2::Id(8))), &s), Ok(PropertyValue::Index(2)));
    assert_eq!(
        read_property(&prop(PROP_ID, tab(Sel2::Index(1), Sel2::Index(1))), &s),
        Ok(PropertyValue::Id(0x8000_0000_0000_0001))
    );
    assert_eq!(
        read_property(&prop(PROP_SELECTED, tab(Sel2::Index(1), Sel2::Index(2))), &s),
        Ok(PropertyValue::Flag(true))
    );
    assert_eq!(
        read_property(&prop(PROP_WORKING_DIRECTORY, term(Sel2::Index(1), Sel2::Index(1), Sel2::Index(2))), &s),
        Ok(PropertyValue::Text("/src".to_string()))
    );
    assert_eq!(
        read_property(&prop(PROP_WORKING_DIRECTORY, term(Sel2::Index(1), Sel2::Index(1), Sel2::Index(1))), &s),
        Ok(PropertyValue::Text(String::new()))
    );
    // A terminal has no selected property.
    assert_eq!(
        read_property(&prop(PROP_SELECTED, term(Sel2::Index(1), Sel2::Index(1), Sel2::Index(1))), &s),
        Err(NO_SUCH_OBJECT)
    );
    // Not a property specifier, or one whose container does not resolve.
    assert_eq!(read_property(&window(Sel2::Index(1)), &s), Err(NO_SUCH_OBJECT));
    assert_eq!(read_property(&prop(PROP_NAME, window(Sel2::Index(9))), &s), Err(NO_SUCH_OBJECT));
}

#[test]
fn focus_targets_prefer_the_selected_terminal() {
    let s = snapshot();
    assert_eq!(tab_focus_target(&s.windows[0].tabs[0]), Ok((0x8000_0000_0000_0001, 12)));
    assert_eq!(tab_focus_target(&s.windows[0].tabs[1]), Ok((21, 31)));
    let lonely = TabSnapshot { id: 5, name: String::new(), index: 1, selected: false, terminals: vec![] };
    assert_eq!(tab_focus_target(&lonely), Err(NO_SUCH_OBJECT));
    // The frontmost target is the selected tab's.
    assert_eq!(frontmost_target(&s), Some((21, 31)));
    assert_eq!(frontmost_target(&AppStateSnapshot::default()), None);
}

#[test]
fn targets_and_close_plans_follow_the_resolved_class() {
    let s = snapshot();
    assert_eq!(terminal_target(&term(Sel2::Index(1), Sel2::Index(1), Sel2::Index(1)), &s), Ok((0x8000_0000_0000_0001, 11)));
    assert_eq!(terminal_target(&tab(Sel2::Index(1), Sel2::Index(1)), &s), Err(NO_SUCH_OBJECT));
    assert_eq!(tab_target(&tab(Sel2::Index(1), Sel2::Index(2)), &s), Ok((21, 31)));
    assert_eq!(window_target(&window(Sel2::Index(1)), &s), Ok((0x8000_0000_0000_0001, 12)));
    assert_eq!(window_target(&window(Sel2::Index(2)), &s), Err(NO_SUCH_OBJECT));
    assert_eq!(
        close_plan(&term(Sel2::Index(1), Sel2::Index(2), Sel2::Index(1)), &s),
        Ok(ClosePlan::ClosePane { window_id: 21, pane_id: 31 })
    );
    assert_eq!(
        close_plan(&tab(Sel2::Index(1), Sel2::Index(1)), &s),
        Ok(ClosePlan::CloseTab { window_id: 0x8000_0000_0000_0001, pane_id: 12 })
    );
    assert_eq!(
        close_plan(&window(Sel2::Id(7)), &s),
        Ok(ClosePlan::CloseWindow { window_id: 0x8000_0000_0000_0001, pane_id: 12 })
    );
    assert_eq!(close_plan(&Reference::App, &s), Err(NO_SUCH_OBJECT));
    assert_eq!(close_plan(&window(Sel2::Id(8)), &s), Err(NO_SUCH_OBJECT));
}

#[test]
fn sixty_four_bit_ids_round_trip_through_descriptor_bytes() {
    let id: u64 = 0x0000_7f8a_1234_5678;
    let bytes = int64_bytes(id);
    assert_eq!(bytes, id.to_le_bytes().to_vec());
    assert_eq!(int64_value(Some(&bytes), 0) as u64, id);
    let high: u64 = u64::MAX - 4;
    assert_eq!(int64_value(Some(&int64_bytes(high)), 0) as u64, high, "the bit pattern survives");
    assert_eq!(int64_value(None, 2), 2, "a failed coercion falls back to the 32-bit value");
    assert_eq!(int64_value(Some(&[1, 2, 3]), -7), -7, "short data falls back too");
    assert_eq!(int64_value(Some(&[5, 0, 0, 0, 0, 0, 0, 0, 9]), 0), 5, "only the first eight bytes count");
}
