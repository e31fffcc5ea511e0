use rusty_editor::color::Color;
use rusty_editor::handle::NodeHandle;
use rusty_editor::interaction::move_mode::{
    Axis, ColorWrite, DragConstraint, GizmoNodes, GizmoPart, GizmoVisibility, MoveGizmo,
    MoveGizmoMode, MoveInteractionMode, PlaneNormal, ReleaseAction,
};
use rusty_editor::scene::selection::GraphSelection;

fn h(i: u32) -> NodeHandle {
    NodeHandle::new(i, 1)
}

fn nodes() -> GizmoNodes {
    GizmoNodes {
        origin: h(100),
        x_axis: h(101),
        x_arrow: h(102),
        y_axis: h(103),
        y_arrow: h(104),
        z_axis: h(105),
        z_arrow: h(106),
        xy_plane: h(107),
        yz_plane: h(108),
        zx_plane: h(109),
    }
}

fn red() -> Color {
    Color { r: 255, g: 0, b: 0, a: 255 }
}
fn green() -> Color {
    Color { r: 0, g: 255, b: 0, a: 255 }
}
fn blue() -> Color {
    Color { r: 0, g: 0, b: 255, a: 255 }
}
fn yellow() -> Color {
    Color { r: 255, g: 255, b: 0, a: 255 }
}

fn w(node: NodeHandle, color: Color) -> ColorWrite {
    ColorWrite { node, color }
}

fn restore_writes() -> Vec<ColorWrite> {
    let n = nodes();
    vec![
        w(n.x_axis, red()),
        w(n.x_arrow, red()),
        w(n.y_axis, green()),
        w(n.y_arrow, green()),
        w(n.z_axis, blue()),
        w(n.z_arrow, blue()),
        w(n.zx_plane, green()),
        w(n.yz_plane, red()),
        w(n.xy_plane, blue()),
    ]
}

/// The color each node ends with after the writes, in order.
fn final_color(writes: &[ColorWrite], node: NodeHandle) -> Option<Color> {
    writes.iter().rev().find(|x| x.node == node).map(|x| x.color)
}

#[test]
fn new_gizmo_has_no_constraint() {
    let g = MoveGizmo::new(nodes());
    assert_eq!(g.mode(), MoveGizmoMode::Inactive);
    assert_eq!(g.origin, h(100));
    assert_eq!(g.nodes(), nodes());
    assert_eq!(g.drag_constraint(), None);
}

#[test]
fn set_mode_restores_then_highlights() {
    let mut g = MoveGizmo::new(nodes());
    let writes = g.set_mode(MoveGizmoMode::Inactive);
    assert_eq!(writes, restore_writes());

    let writes = g.set_mode(MoveGizmoMode::X);
    let mut expected = restore_writes();
    expected.push(w(h(101), yellow()));
    expected.push(w(h(102), yellow()));
    assert_eq!(writes, expected);
    assert_eq!(g.mode(), MoveGizmoMode::X);

    let writes = g.set_mode(MoveGizmoMode::YZ);
    let mut expected = restore_writes();
    expected.push(w(h(108), yellow()));
    assert_eq!(writes, expected);
}

#[test]
fn mode_colors_of_every_part() {
    let modes = [
        MoveGizmoMode::Inactive,
        MoveGizmoMode::X,
        MoveGizmoMode::Y,
        MoveGizmoMode::Z,
        MoveGizmoMode::XY,
        MoveGizmoMode::YZ,
        MoveGizmoMode::ZX,
    ];
    let parts = [
        (GizmoPart::XAxis, Some(MoveGizmoMode::X)),
        (GizmoPart::XArrow, Some(MoveGizmoMode::X)),
        (GizmoPart::YAxis, Some(MoveGizmoMode::Y)),
        (GizmoPart::YArrow, Some(MoveGizmoMode::Y)),
        (GizmoPart::ZAxis, Some(MoveGizmoMode::Z)),
        (GizmoPart::ZArrow, Some(MoveGizmoMode::Z)),
        (GizmoPart::XYPlane, Some(MoveGizmoMode::XY)),
        (GizmoPart::YZPlane, Some(MoveGizmoMode::YZ)),
        (GizmoPart::ZXPlane, Some(MoveGizmoMode::ZX)),
    ];
    for mode in modes {
        let mut g = MoveGizmo::new(nodes());
        let writes = g.set_mode(mode);
        for (part, owner) in parts {
            let expected = if owner == Some(mode) {
                yellow()
            } else {
                MoveGizmo::base_color(part)
            };
            assert_eq!(final_color(&writes, g.part_node(part)), Some(expected));
        }
        assert_eq!(final_color(&writes, h(100)), None);
        assert_eq!(final_color(&writes, h(5)), None);
    }
}

#[test]
fn base_colors() {
    assert_eq!(MoveGizmo::base_color(GizmoPart::XAxis), red());
    assert_eq!(MoveGizmo::base_color(GizmoPart::YArrow), green());
    assert_eq!(MoveGizmo::base_color(GizmoPart::ZAxis), blue());
    assert_eq!(MoveGizmo::base_color(GizmoPart::XYPlane), blue());
    assert_eq!(MoveGizmo::base_color(GizmoPart::YZPlane), red());
    assert_eq!(MoveGizmo::base_color(GizmoPart::ZXPlane), green());
    assert_eq!(Color::opaque(255, 255, 0), yellow());
}

#[test]
fn handle_pick_selects_the_constraint_of_the_part() {
    let cases = [
        (101, MoveGizmoMode::X),
        (102, MoveGizmoMode::X),
        (103, MoveGizmoMode::Y),
        (104, MoveGizmoMode::Y),
        (105, MoveGizmoMode::Z),
        (106, MoveGizmoMode::Z),
        (107, MoveGizmoMode::XY),
        (108, MoveGizmoMode::YZ),
        (109, MoveGizmoMode::ZX),
    ];
    for (index, mode) in cases {
        let mut g = MoveGizmo::new(nodes());
        let (hit, writes) = g.handle_pick(h(index));
        assert!(hit);
        assert_eq!(g.mode(), mode);
        assert_eq!(final_color(&writes, h(index)), Some(yellow()));
    }
}

#[test]
fn handle_pick_elsewhere_clears_the_constraint() {
    let mut g = MoveGizmo::new(nodes());
    g.handle_pick(h(101));
    let (hit, writes) = g.handle_pick(h(100));
    assert!(!hit);
    assert_eq!(g.mode(), MoveGizmoMode::Inactive);
    assert_eq!(writes, restore_writes());
    let (hit, _) = g.handle_pick(NodeHandle::none());
    assert!(!hit);
    // Same index, other generation: another node.
    let (hit, _) = g.handle_pick(NodeHandle::new(101, 2));
    assert!(!hit);
}

#[test]
fn drag_constraints() {
    let mut g = MoveGizmo::new(nodes());
    let c = |plane, keep_x, keep_y, keep_z| DragConstraint { plane, keep_x, keep_y, keep_z };
    let cases = [
        (MoveGizmoMode::X, c(PlaneNormal::ViewWithout(Axis::X), true, false, false)),
        (MoveGizmoMode::Y, c(PlaneNormal::ViewWithout(Axis::Y), false, true, false)),
        (MoveGizmoMode::Z, c(PlaneNormal::ViewWithout(Axis::Z), false, false, true)),
        (MoveGizmoMode::XY, c(PlaneNormal::Along(Axis::Z), true, true, false)),
        (MoveGizmoMode::YZ, c(PlaneNormal::Along(Axis::X), false, true, true)),
        (MoveGizmoMode::ZX, c(PlaneNormal::Along(Axis::Y), true, false, true)),
    ];
    for (mode, constraint) in cases {
        g.set_mode(mode);
        assert_eq!(g.drag_constraint(), Some(constraint));
    }
    g.set_mode(MoveGizmoMode::Inactive);
    assert_eq!(g.drag_constraint(), None);
}

fn mode() -> MoveInteractionMode<(i32, i32, i32)> {
    MoveInteractionMode::new(MoveGizmo::new(nodes()))
}

#[test]
fn new_mode_is_idle() {
    let m = mode();
    assert!(!m.is_interacting());
    assert!(m.initial_positions().is_empty());
    assert_eq!(m.gizmo().mode(), MoveGizmoMode::Inactive);
}

#[test]
fn press_on_gizmo_with_graph_selection_begins_drag() {
    let mut m = mode();
    let writes = m.on_left_mouse_button_down(h(103), Some(vec![(1, 2, 3), (4, 5, 6)]));
    assert!(m.is_interacting());
    assert_eq!(m.initial_positions(), &vec![(1, 2, 3), (4, 5, 6)]);
    assert_eq!(m.gizmo().mode(), MoveGizmoMode::Y);
    assert_eq!(writes.len(), 11);
}

#[test]
fn press_on_gizmo_without_graph_selection_does_not_drag() {
    let mut m = mode();
    m.on_left_mouse_button_down(h(107), None);
    assert!(!m.is_interacting());
    assert_eq!(m.gizmo().mode(), MoveGizmoMode::XY);
}

#[test]
fn press_beside_gizmo_does_not_drag() {
    let mut m = mode();
    m.on_left_mouse_button_down(h(7), Some(vec![(1, 1, 1)]));
    assert!(!m.is_interacting());
    assert!(m.initial_positions().is_empty());
    assert_eq!(m.gizmo().mode(), MoveGizmoMode::Inactive);
}

#[test]
fn release_after_move_records_moves() {
    let mut m = mode();
    let selection = GraphSelection::from_nodes(vec![h(1), h(2)]);
    m.on_left_mouse_button_down(h(101), Some(vec![(0, 0, 0), (5, 5, 5)]));
    let action = m.on_left_mouse_button_up(
        Some(&selection),
        vec![(1, 0, 0), (6, 5, 5)],
        true,
        NodeHandle::none(),
        false,
    );
    assert!(!m.is_interacting());
    match action {
        ReleaseAction::MoveNodes(commands) => {
            assert_eq!(commands.len(), 2);
            assert_eq!(commands[0].node, h(1));
            assert_eq!(commands[0].old_position, (0, 0, 0));
            assert_eq!(commands[0].new_position, (1, 0, 0));
            assert_eq!(commands[1].node, h(2));
            assert_eq!(commands[1].old_position, (5, 5, 5));
            assert_eq!(commands[1].new_position, (6, 5, 5));
        }
        _ => panic!("expected moves"),
    }
}

#[test]
fn release_without_move_records_nothing() {
    let mut m = mode();
    let selection = GraphSelection::from_nodes(vec![h(1)]);
    m.on_left_mouse_button_down(h(101), Some(vec![(0, 0, 0)]));
    let action =
        m.on_left_mouse_button_up(Some(&selection), vec![(0, 0, 0)], false, h(9), true);
    assert!(!m.is_interacting());
    assert!(matches!(action, ReleaseAction::Nothing));
}

#[test]
fn release_on_empty_selection_keeps_dragging() {
    let mut m = mode();
    let empty = GraphSelection::new();
    m.on_left_mouse_button_down(h(101), Some(vec![]));
    let action = m.on_left_mouse_button_up(Some(&empty), vec![], true, h(9), false);
    assert!(m.is_interacting());
    assert!(matches!(action, ReleaseAction::Nothing));
    let action = m.on_left_mouse_button_up(None, vec![], true, h(9), false);
    assert!(m.is_interacting());
    assert!(matches!(action, ReleaseAction::Nothing));
}

#[test]
fn move_commands_stop_at_shortest_list() {
    let mut m = mode();
    let selection = GraphSelection::from_nodes(vec![h(1), h(2), h(3)]);
    m.on_left_mouse_button_down(h(102), Some(vec![(0, 0, 0), (1, 1, 1)]));
    let action = m.on_left_mouse_button_up(
        Some(&selection),
        vec![(9, 9, 9), (8, 8, 8), (7, 7, 7)],
        true,
        NodeHandle::none(),
        false,
    );
    match action {
        ReleaseAction::MoveNodes(commands) => assert_eq!(commands.len(), 2),
        _ => panic!("expected moves"),
    }
}

fn selected(action: ReleaseAction<(i32, i32, i32)>) -> Option<Vec<NodeHandle>> {
    match action {
        ReleaseAction::ChangeSelection(s) => Some(s.nodes().clone()),
        _ => None,
    }
}

#[test]
fn click_selects_picked_node() {
    let mut m = mode();
    let current = GraphSelection::from_nodes(vec![h(1)]);
    let action = m.on_left_mouse_button_up(Some(&current), vec![], false, h(2), false);
    assert_eq!(selected(action), Some(vec![h(2)]));
    assert!(!m.is_interacting());
}

#[test]
fn click_on_selected_node_changes_nothing() {
    let mut m = mode();
    let current = GraphSelection::from_nodes(vec![h(2)]);
    let action = m.on_left_mouse_button_up(Some(&current), vec![], false, h(2), false);
    assert_eq!(selected(action), None);
}

#[test]
fn click_on_nothing_clears_selection() {
    let mut m = mode();
    let current = GraphSelection::from_nodes(vec![h(2)]);
    let action =
        m.on_left_mouse_button_up(Some(&current), vec![], false, NodeHandle::none(), false);
    assert_eq!(selected(action), Some(vec![]));
    let empty = GraphSelection::new();
    let action =
        m.on_left_mouse_button_up(Some(&empty), vec![], false, NodeHandle::none(), true);
    assert_eq!(selected(action), None);
}

#[test]
fn control_click_adds_node() {
    let mut m = mode();
    let current = GraphSelection::from_nodes(vec![h(1)]);
    let action = m.on_left_mouse_button_up(Some(&current), vec![], false, h(2), true);
    assert_eq!(selected(action), Some(vec![h(1), h(2)]));
}

#[test]
fn control_click_on_selected_node_is_not_recorded() {
    // The editor compares selections by inclusion: the smaller selection
    // matches the current one, so no change is recorded.
    let mut m = mode();
    let current = GraphSelection::from_nodes(vec![h(1), h(2)]);
    let action = m.on_left_mouse_button_up(Some(&current), vec![], false, h(1), true);
    assert_eq!(selected(action), None);
}

#[test]
fn click_on_other_kind_of_selection_always_changes_it() {
    let mut m = mode();
    let action = m.on_left_mouse_button_up(None, vec![], false, h(4), true);
    assert_eq!(selected(action), Some(vec![h(4)]));
    let action = m.on_left_mouse_button_up(None, vec![], false, NodeHandle::none(), false);
    assert_eq!(selected(action), Some(vec![]));
}

#[test]
fn mouse_move_offsets_only_while_dragging_a_graph_selection() {
    let mut m = mode();
    assert!(!m.on_mouse_move(true));
    m.on_left_mouse_button_down(h(101), Some(vec![(0, 0, 0)]));
    assert!(m.on_mouse_move(true));
    assert!(!m.on_mouse_move(false));
}

#[test]
fn update_and_deactivate() {
    let m = mode();
    let some = GraphSelection::from_nodes(vec![h(1)]);
    let empty = GraphSelection::new();
    assert_eq!(m.update(Some(&some)), GizmoVisibility::ShowOnSelection);
    assert_eq!(m.update(Some(&empty)), GizmoVisibility::Hide);
    assert_eq!(m.update(None), GizmoVisibility::Unchanged);
    assert_eq!(m.deactivate(), GizmoVisibility::Hide);
}

#[test]
fn gizmo_pick_filter() {
    let m = mode();
    assert!(m.accepts_gizmo_pick(h(101), h(1), h(2)));
    assert!(!m.accepts_gizmo_pick(h(1), h(1), h(2)));
    assert!(!m.accepts_gizmo_pick(h(2), h(1), h(2)));
    assert!(!m.accepts_gizmo_pick(h(100), h(1), h(2)));
}
