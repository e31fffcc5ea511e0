use vstd::prelude::*;

use crate::color::Color;
use crate::handle::NodeHandle;
use crate::scene::selection::{
    first_position, lemma_first_position_exists, selection_matches, single_or_empty_spec, toggled,
    GraphSelection,
};

verus! {

/// The constraint the move gizmo puts on dragging: along one axis, within
/// one coordinate plane, or no dragging at all.
#[derive(Clone, Copy, Debug, PartialEq, Eq, Structural)]
pub enum MoveGizmoMode {
    Inactive,
    X,
    Y,
    Z,
    XY,
    YZ,
    ZX,
}

/// The pickable parts of the move gizmo.
#[derive(Clone, Copy, Debug, PartialEq, Eq, Structural)]
pub enum GizmoPart {
    XAxis,
    XArrow,
    YAxis,
    YArrow,
    ZAxis,
    ZArrow,
    XYPlane,
    YZPlane,
    ZXPlane,
}

/// A coordinate axis.
#[derive(Clone, Copy, Debug, PartialEq, Eq, Structural)]
pub enum Axis {
    X,
    Y,
    Z,
}

/// The normal of the plane, through the gizmo's origin, that the mouse rays
/// are cast on while dragging.
#[derive(Clone, Copy, Debug, PartialEq, Eq, Structural)]
pub enum PlaneNormal {
    /// The direction from the camera to the gizmo, with the component along
    /// the axis set to zero: a plane that holds the axis and faces the camera.
    ViewWithout(Axis),
    /// The unit vector along the axis.
    Along(Axis),
}

/// How a drag turns into an offset: the two mouse rays are cast on the plane,
/// and of the difference between the two hit points only the kept
/// components are used.
#[derive(Clone, Copy, Debug, PartialEq, Eq, Structural)]
pub struct DragConstraint {
    pub plane: PlaneNormal,
    pub keep_x: bool,
    pub keep_y: bool,
    pub keep_z: bool,
}

/// One color change of a mesh of the gizmo.
#[derive(Clone, Copy, Debug, PartialEq, Eq, Structural)]
pub struct ColorWrite {
    pub node: NodeHandle,
    pub color: Color,
}

/// The scene nodes a move gizmo is made of.
#[derive(Clone, Copy, Debug, PartialEq, Eq, Structural)]
pub struct GizmoNodes {
    pub origin: NodeHandle,
    pub x_axis: NodeHandle,
    pub x_arrow: NodeHandle,
    pub y_axis: NodeHandle,
    pub y_arrow: NodeHandle,
    pub z_axis: NodeHandle,
    pub z_arrow: NodeHandle,
    pub xy_plane: NodeHandle,
    pub yz_plane: NodeHandle,
    pub zx_plane: NodeHandle,
}

// ---------------------------------------------------------------------------
// Colors
// ---------------------------------------------------------------------------

/// The color a part has when it is not highlighted.
pub open spec fn base_color_spec(part: GizmoPart) -> Color {
    match part {
        GizmoPart::XAxis | GizmoPart::XArrow | GizmoPart::YZPlane => Color::opaque_spec(255, 0, 0),
        GizmoPart::YAxis | GizmoPart::YArrow | GizmoPart::ZXPlane => Color::opaque_spec(0, 255, 0),
        GizmoPart::ZAxis | GizmoPart::ZArrow | GizmoPart::XYPlane => Color::opaque_spec(0, 0, 255),
    }
}

/// The color of the parts that make up the active constraint.
pub open spec fn highlight_color_spec() -> Color {
    Color::opaque_spec(255, 255, 0)
}

/// Whether `part` is one of the parts that make up the constraint `mode`.
pub open spec fn highlights(mode: MoveGizmoMode, part: GizmoPart) -> bool {
    match mode {
        MoveGizmoMode::Inactive => false,
        MoveGizmoMode::X => part == GizmoPart::XAxis || part == GizmoPart::XArrow,
        MoveGizmoMode::Y => part == GizmoPart::YAxis || part == GizmoPart::YArrow,
        MoveGizmoMode::Z => part == GizmoPart::ZAxis || part == GizmoPart::ZArrow,
        MoveGizmoMode::XY => part == GizmoPart::XYPlane,
        MoveGizmoMode::YZ => part == GizmoPart::YZPlane,
        MoveGizmoMode::ZX => part == GizmoPart::ZXPlane,
    }
}

/// The color `part` shows while the gizmo is in `mode`.
pub open spec fn part_color_spec(mode: MoveGizmoMode, part: GizmoPart) -> Color {
    if highlights(mode, part) {
        highlight_color_spec()
    } else {
        base_color_spec(part)
    }
}

/// The order in which `set_mode` gives every part its base color back.
pub open spec fn restore_order() -> Seq<GizmoPart> {
    seq![
        GizmoPart::XAxis,
        GizmoPart::XArrow,
        GizmoPart::YAxis,
        GizmoPart::YArrow,
        GizmoPart::ZAxis,
        GizmoPart::ZArrow,
        GizmoPart::ZXPlane,
        GizmoPart::YZPlane,
        GizmoPart::XYPlane,
    ]
}

/// The parts `set_mode` then paints with the highlight color, in order.
pub open spec fn highlight_order(mode: MoveGizmoMode) -> Seq<GizmoPart> {
    match mode {
        MoveGizmoMode::Inactive => Seq::empty(),
        MoveGizmoMode::X => seq![GizmoPart::XAxis, GizmoPart::XArrow],
        MoveGizmoMode::Y => seq![GizmoPart::YAxis, GizmoPart::YArrow],
        MoveGizmoMode::Z => seq![GizmoPart::ZAxis, GizmoPart::ZArrow],
        MoveGizmoMode::XY => seq![GizmoPart::XYPlane],
        MoveGizmoMode::YZ => seq![GizmoPart::YZPlane],
        MoveGizmoMode::ZX => seq![GizmoPart::ZXPlane],
    }
}

/// The node of `part` in `nodes`.
pub open spec fn part_node_spec(nodes: GizmoNodes, part: GizmoPart) -> NodeHandle {
    match part {
        GizmoPart::XAxis => nodes.x_axis,
        GizmoPart::XArrow => nodes.x_arrow,
        GizmoPart::YAxis => nodes.y_axis,
        GizmoPart::YArrow => nodes.y_arrow,
        GizmoPart::ZAxis => nodes.z_axis,
        GizmoPart::ZArrow => nodes.z_arrow,
        GizmoPart::XYPlane => nodes.xy_plane,
        GizmoPart::YZPlane => nodes.yz_plane,
        GizmoPart::ZXPlane => nodes.zx_plane,
    }
}

/// The color changes `set_mode(mode)` makes: every part back to its base
/// color, then the parts of `mode` to the highlight color.
pub open spec fn mode_color_writes(nodes: GizmoNodes, mode: MoveGizmoMode) -> Seq<ColorWrite> {
    restore_order().map_values(
        |p: GizmoPart| ColorWrite { node: part_node_spec(nodes, p), color: base_color_spec(p) },
    ) + highlight_order(mode).map_values(
        |p: GizmoPart| ColorWrite { node: part_node_spec(nodes, p), color: highlight_color_spec() },
    )
}

/// The color that the last of `writes` that touches `node` gives it.
pub open spec fn last_color(writes: Seq<ColorWrite>, node: NodeHandle) -> Option<Color>
    decreases writes.len(),
{
    if writes.len() == 0 {
        None
    } else if writes.last().node == node {
        Some(writes.last().color)
    } else {
        last_color(writes.drop_last(), node)
    }
}

/// No two parts share a node.
pub open spec fn distinct_parts(nodes: GizmoNodes) -> bool {
    forall|p: GizmoPart, q: GizmoPart|
        p != q ==> part_node_spec(nodes, p) != part_node_spec(nodes, q)
}

// ---------------------------------------------------------------------------
// Picking and dragging
// ---------------------------------------------------------------------------

/// The mode a pick of `picked` selects: the axis of an axis or arrow, the
/// plane of a plane square, and no constraint for any other node. The parts
/// are tried in the order X, Y, Z, ZX, XY, YZ.
pub open spec fn picked_mode(nodes: GizmoNodes, picked: NodeHandle) -> MoveGizmoMode {
    if picked == nodes.x_axis || picked == nodes.x_arrow {
        MoveGizmoMode::X
    } else if picked == nodes.y_axis || picked == nodes.y_arrow {
        MoveGizmoMode::Y
    } else if picked == nodes.z_axis || picked == nodes.z_arrow {
        MoveGizmoMode::Z
    } else if picked == nodes.zx_plane {
        MoveGizmoMode::ZX
    } else if picked == nodes.xy_plane {
        MoveGizmoMode::XY
    } else if picked == nodes.yz_plane {
        MoveGizmoMode::YZ
    } else {
        MoveGizmoMode::Inactive
    }
}

/// The drag constraint of `mode`; `None` when dragging does not move anything.
pub open spec fn drag_constraint_spec(mode: MoveGizmoMode) -> Option<DragConstraint> {
    match mode {
        MoveGizmoMode::Inactive => None,
        MoveGizmoMode::X => Some(
            DragConstraint {
                plane: PlaneNormal::ViewWithout(Axis::X),
                keep_x: true,
                keep_y: false,
                keep_z: false,
            },
        ),
        MoveGizmoMode::Y => Some(
            DragConstraint {
                plane: PlaneNormal::ViewWithout(Axis::Y),
                keep_x: false,
                keep_y: true,
                keep_z: false,
            },
        ),
        MoveGizmoMode::Z => Some(
            DragConstraint {
                plane: PlaneNormal::ViewWithout(Axis::Z),
                keep_x: false,
                keep_y: false,
                keep_z: true,
            },
        ),
        MoveGizmoMode::XY => Some(
            DragConstraint {
                plane: PlaneNormal::Along(Axis::Z),
                keep_x: true,
                keep_y: true,
                keep_z: false,
            },
        ),
        MoveGizmoMode::YZ => Some(
            DragConstraint {
                plane: PlaneNormal::Along(Axis::X),
                keep_x: false,
                keep_y: true,
                keep_z: true,
            },
        ),
        MoveGizmoMode::ZX => Some(
            DragConstraint {
                plane: PlaneNormal::Along(Axis::Y),
                keep_x: true,
                keep_y: false,
                keep_z: true,
            },
        ),
    }
}

/// Whether `mode` lets the offset move along `axis`.
pub open spec fn mode_moves_along(mode: MoveGizmoMode, axis: Axis) -> bool {
    match mode {
        MoveGizmoMode::Inactive => false,
        MoveGizmoMode::X => axis == Axis::X,
        MoveGizmoMode::Y => axis == Axis::Y,
        MoveGizmoMode::Z => axis == Axis::Z,
        MoveGizmoMode::XY => axis != Axis::Z,
        MoveGizmoMode::YZ => axis != Axis::X,
        MoveGizmoMode::ZX => axis != Axis::Y,
    }
}

/// Whether `constraint` keeps the offset's component along `axis`.
pub open spec fn keeps(constraint: DragConstraint, axis: Axis) -> bool {
    match axis {
        Axis::X => constraint.keep_x,
        Axis::Y => constraint.keep_y,
        Axis::Z => constraint.keep_z,
    }
}

/// Whether the plane with normal `normal` holds every direction along `axis`.
pub open spec fn plane_holds(normal: PlaneNormal, axis: Axis) -> bool {
    match normal {
        PlaneNormal::ViewWithout(a) => a == axis,
        PlaneNormal::Along(a) => a != axis,
    }
}

// ---------------------------------------------------------------------------
// The gizmo
// ---------------------------------------------------------------------------

/// The move gizmo: three axes with arrows and three plane squares around an
/// origin node, and the constraint picked last.
pub struct MoveGizmo {
    mode: MoveGizmoMode,
    pub origin: NodeHandle,
    x_arrow: NodeHandle,
    y_arrow: NodeHandle,
    z_arrow: NodeHandle,
    x_axis: NodeHandle,
    y_axis: NodeHandle,
    z_axis: NodeHandle,
    xy_plane: NodeHandle,
    yz_plane: NodeHandle,
    zx_plane: NodeHandle,
}

impl MoveGizmo {
    /// The constraint picked last.
    pub closed spec fn mode_spec(&self) -> MoveGizmoMode {
        self.mode
    }

    /// The nodes the gizmo is made of.
    pub closed spec fn nodes_spec(&self) -> GizmoNodes {
        GizmoNodes {
            origin: self.origin,
            x_axis: self.x_axis,
            x_arrow: self.x_arrow,
            y_axis: self.y_axis,
            y_arrow: self.y_arrow,
            z_axis: self.z_axis,
            z_arrow: self.z_arrow,
            xy_plane: self.xy_plane,
            yz_plane: self.yz_plane,
            zx_plane: self.zx_plane,
        }
    }

    /// A gizmo made of `nodes`, with no constraint picked.
    pub fn new(nodes: GizmoNodes) -> (g: MoveGizmo)
        ensures
            g.nodes_spec() == nodes,
            g.mode_spec() == MoveGizmoMode::Inactive,
    {
        MoveGizmo {
            mode: MoveGizmoMode::Inactive,
            origin: nodes.origin,
            x_arrow: nodes.x_arrow,
            y_arrow: nodes.y_arrow,
            z_arrow: nodes.z_arrow,
            x_axis: nodes.x_axis,
            y_axis: nodes.y_axis,
            z_axis: nodes.z_axis,
            zx_plane: nodes.zx_plane,
            yz_plane: nodes.yz_plane,
            xy_plane: nodes.xy_plane,
        }
    }

    pub fn mode(&self) -> (m: MoveGizmoMode)
        ensures
            m == self.mode_spec(),
    {
        self.mode
    }

    pub fn nodes(&self) -> (n: GizmoNodes)
        ensures
            n == self.nodes_spec(),
    {
        GizmoNodes {
            origin: self.origin,
            x_axis: self.x_axis,
            x_arrow: self.x_arrow,
            y_axis: self.y_axis,
            y_arrow: self.y_arrow,
            z_axis: self.z_axis,
            z_arrow: self.z_arrow,
            xy_plane: self.xy_plane,
            yz_plane: self.yz_plane,
            zx_plane: self.zx_plane,
        }
    }

    /// The node of `part`.
    pub fn part_node(&self, part: GizmoPart) -> (h: NodeHandle)
        ensures
            h == part_node_spec(self.nodes_spec(), part),
    {
        match part {
            GizmoPart::XAxis => self.x_axis,
            GizmoPart::XArrow => self.x_arrow,
            GizmoPart::YAxis => self.y_axis,
            GizmoPart::YArrow => self.y_arrow,
            GizmoPart::ZAxis => self.z_axis,
            GizmoPart::ZArrow => self.z_arrow,
            GizmoPart::XYPlane => self.xy_plane,
            GizmoPart::YZPlane => self.yz_plane,
            GizmoPart::ZXPlane => self.zx_plane,
        }
    }

    /// The color `part` has when it is not highlighted; the gizmo's meshes are
    /// built with it.
    pub fn base_color(part: GizmoPart) -> (c: Color)
        ensures
            c == base_color_spec(part),
    {
        match part {
            GizmoPart::XAxis | GizmoPart::XArrow | GizmoPart::YZPlane => Color::red(),
            GizmoPart::YAxis | GizmoPart::YArrow | GizmoPart::ZXPlane => Color::green(),
            GizmoPart::ZAxis | GizmoPart::ZArrow | GizmoPart::XYPlane => Color::blue(),
        }
    }

    fn push_write(writes: &mut Vec<ColorWrite>, node: NodeHandle, color: Color)
        ensures
            final(writes)@ == old(writes)@.push(ColorWrite { node, color }),
    {
        writes.push(ColorWrite { node, color });
    }

    /// Makes `mode` the active constraint and gives the color changes that
    /// show it: every part back to its base color, then the parts of `mode`
    /// in the highlight color.
    pub fn set_mode(&mut self, mode: MoveGizmoMode) -> (writes: Vec<ColorWrite>)
        ensures
            final(self).mode_spec() == mode,
            final(self).nodes_spec() == old(self).nodes_spec(),
            writes@ == mode_color_writes(old(self).nodes_spec(), mode),
    {
        self.mode = mode;
        let mut writes: Vec<ColorWrite> = Vec::new();

        // Restore initial colors first.
        Self::push_write(&mut writes, self.x_axis, Color::red());
        Self::push_write(&mut writes, self.x_arrow, Color::red());
        Self::push_write(&mut writes, self.y_axis, Color::green());
        Self::push_write(&mut writes, self.y_arrow, Color::green());
        Self::push_write(&mut writes, self.z_axis, Color::blue());
        Self::push_write(&mut writes, self.z_arrow, Color::blue());
        Self::push_write(&mut writes, self.zx_plane, Color::green());
        Self::push_write(&mut writes, self.yz_plane, Color::red());
        Self::push_write(&mut writes, self.xy_plane, Color::blue());

        let yellow = Color::opaque(255, 255, 0);
        match mode {
            MoveGizmoMode::X => {
                Self::push_write(&mut writes, self.x_axis, yellow);
                Self::push_write(&mut writes, self.x_arrow, yellow);
            },
            MoveGizmoMode::Y => {
                Self::push_write(&mut writes, self.y_axis, yellow);
                Self::push_write(&mut writes, self.y_arrow, yellow);
            },
            MoveGizmoMode::Z => {
                Self::push_write(&mut writes, self.z_axis, yellow);
                Self::push_write(&mut writes, self.z_arrow, yellow);
            },
            MoveGizmoMode::XY => {
                Self::push_write(&mut writes, self.xy_plane, yellow);
            },
            MoveGizmoMode::YZ => {
                Self::push_write(&mut writes, self.yz_plane, yellow);
            },
            MoveGizmoMode::ZX => {
                Self::push_write(&mut writes, self.zx_plane, yellow);
            },
            MoveGizmoMode::Inactive => {},
        }
        assert(writes@ =~= mode_color_writes(self.nodes_spec(), mode));
        writes
    }

    /// Picks the constraint of the part `picked` (see `picked_mode`), makes
    /// it active, and tells whether a part of the gizmo was picked, with the
    /// color changes of `set_mode`.
    pub fn handle_pick(&mut self, picked: NodeHandle) -> (r: (bool, Vec<ColorWrite>))
        ensures
            final(self).mode_spec() == picked_mode(old(self).nodes_spec(), picked),
            final(self).nodes_spec() == old(self).nodes_spec(),
            r.0 == (picked_mode(old(self).nodes_spec(), picked) != MoveGizmoMode::Inactive),
            r.1@ == mode_color_writes(
                old(self).nodes_spec(),
                picked_mode(old(self).nodes_spec(), picked),
            ),
    {
        if picked == self.x_axis || picked == self.x_arrow {
            (true, self.set_mode(MoveGizmoMode::X))
        } else if picked == self.y_axis || picked == self.y_arrow {
            (true, self.set_mode(MoveGizmoMode::Y))
        } else if picked == self.z_axis || picked == self.z_arrow {
            (true, self.set_mode(MoveGizmoMode::Z))
        } else if picked == self.zx_plane {
            (true, self.set_mode(MoveGizmoMode::ZX))
        } else if picked == self.xy_plane {
            (true, self.set_mode(MoveGizmoMode::XY))
        } else if picked == self.yz_plane {
            (true, self.set_mode(MoveGizmoMode::YZ))
        } else {
            (false, self.set_mode(MoveGizmoMode::Inactive))
        }
    }

    /// How a drag under the active constraint turns into an offset of the
    /// selection; `None` when the offset is zero whatever the drag.
    pub fn drag_constraint(&self) -> (c: Option<DragConstraint>)
        ensures
            c == drag_constraint_spec(self.mode_spec()),
    {
        match self.mode {
            MoveGizmoMode::Inactive => None,
            MoveGizmoMode::X => Some(
                DragConstraint {
                    plane: PlaneNormal::ViewWithout(Axis::X),
                    keep_x: true,
                    keep_y: false,
                    keep_z: false,
                },
            ),
            MoveGizmoMode::Y => Some(
                DragConstraint {
                    plane: PlaneNormal::ViewWithout(Axis::Y),
                    keep_x: false,
                    keep_y: true,
                    keep_z: false,
                },
            ),
            MoveGizmoMode::Z => Some(
                DragConstraint {
                    plane: PlaneNormal::ViewWithout(Axis::Z),
                    keep_x: false,
                    keep_y: false,
                    keep_z: true,
                },
            ),
            MoveGizmoMode::XY => Some(
                DragConstraint {
                    plane: PlaneNormal::Along(Axis::Z),
                    keep_x: true,
                    keep_y: true,
                    keep_z: false,
                },
            ),
            MoveGizmoMode::YZ => Some(
                DragConstraint {
                    plane: PlaneNormal::Along(Axis::X),
                    keep_x: false,
                    keep_y: true,
                    keep_z: true,
                },
            ),
            MoveGizmoMode::ZX => Some(
                DragConstraint {
                    plane: PlaneNormal::Along(Axis::Y),
                    keep_x: true,
                    keep_y: false,
                    keep_z: true,
                },
            ),
        }
    }
}

// ---------------------------------------------------------------------------
// The move interaction mode
// ---------------------------------------------------------------------------

/// A change of the position of one node, as the undo history keeps it.
#[derive(Debug)]
pub struct MoveNodeCommand<P> {
    pub node: NodeHandle,
    pub old_position: P,
    pub new_position: P,
}

/// One move command per selected node, pairing the node with its position
/// when the drag began and its position now, as far as all three lists reach.
pub open spec fn move_commands<P>(nodes: Seq<NodeHandle>, current: Seq<P>, initial: Seq<P>) -> Seq<
    MoveNodeCommand<P>,
> {
    let n = if nodes.len() <= current.len() && nodes.len() <= initial.len() {
        nodes.len()
    } else if current.len() <= initial.len() {
        current.len()
    } else {
        initial.len()
    };
    Seq::new(
        n,
        |k: int| MoveNodeCommand { node: nodes[k], old_position: initial[k], new_position: current[k] },
    )
}

/// The nodes of the editor's selection when it is a selection of graph nodes.
pub open spec fn graph_nodes(selection: Option<&GraphSelection>) -> Option<Seq<NodeHandle>> {
    match selection {
        Some(s) => Some(s@),
        None => None,
    }
}

/// The selection a click on `picked` asks for: with the control key down and
/// a node picked, the current graph selection with `picked` toggled;
/// otherwise just `picked`, or nothing when no node was picked.
pub open spec fn clicked_selection(
    current: Option<Seq<NodeHandle>>,
    picked: NodeHandle,
    control: bool,
) -> Seq<NodeHandle> {
    if control && !picked.is_none_spec() && current is Some {
        toggled(current->0, picked)
    } else {
        single_or_empty_spec(picked)
    }
}

/// Whether a click asks for a selection different from the current one, as
/// the editor compares selections.
pub open spec fn selection_changes(current: Option<Seq<NodeHandle>>, new: Seq<NodeHandle>) -> bool {
    match current {
        Some(nodes) => !selection_matches(new, nodes),
        None => true,
    }
}

/// What a release of the left mouse button asks of the editor.
pub enum ReleaseAction<P> {
    /// Nothing to do.
    Nothing,
    /// Record this group of moves in the undo history.
    MoveNodes(Vec<MoveNodeCommand<P>>),
    /// Record a change of the editor's selection to this graph selection.
    ChangeSelection(GraphSelection),
}

/// What becomes of the gizmo on an update of the editor.
#[derive(Clone, Copy, Debug, PartialEq, Eq, Structural)]
pub enum GizmoVisibility {
    /// Leave the gizmo as it is.
    Unchanged,
    /// Move the gizmo onto the selection and show it.
    ShowOnSelection,
    /// Hide the gizmo.
    Hide,
}

/// The interaction mode that moves the selected nodes with the move gizmo.
/// `P` is a node position; the mode only keeps and pairs positions.
pub struct MoveInteractionMode<P> {
    initial_positions: Vec<P>,
    move_gizmo: MoveGizmo,
    interacting: bool,
}

impl<P: Copy> MoveInteractionMode<P> {
    /// The gizmo of the mode.
    pub closed spec fn gizmo_spec(&self) -> MoveGizmo {
        self.move_gizmo
    }

    /// Whether a drag of the gizmo is under way.
    pub closed spec fn interacting_spec(&self) -> bool {
        self.interacting
    }

    /// The positions of the selected nodes when the last drag began.
    pub closed spec fn initial_positions_spec(&self) -> Seq<P> {
        self.initial_positions@
    }

    /// A mode with the gizmo `move_gizmo`, no drag under way and no positions kept.
    pub fn new(move_gizmo: MoveGizmo) -> (m: Self)
        ensures
            m.gizmo_spec() == move_gizmo,
            !m.interacting_spec(),
            m.initial_positions_spec() == Seq::<P>::empty(),
    {
        MoveInteractionMode { initial_positions: Vec::new(), move_gizmo, interacting: false }
    }

    pub fn gizmo(&self) -> (g: &MoveGizmo)
        ensures
            *g == self.gizmo_spec(),
    {
        &self.move_gizmo
    }

    pub fn is_interacting(&self) -> (r: bool)
        ensures
            r == self.interacting_spec(),
    {
        self.interacting
    }

    pub fn initial_positions(&self) -> (p: &Vec<P>)
        ensures
            p@ == self.initial_positions_spec(),
    {
        &self.initial_positions
    }

    /// Whether a press may pick `handle` as a part of the gizmo: any node but
    /// the camera, its pivot and the gizmo's origin.
    pub fn accepts_gizmo_pick(&self, handle: NodeHandle, camera: NodeHandle, camera_pivot: NodeHandle) -> (r: bool)
        ensures
            r == (handle != camera && handle != camera_pivot && handle != self.gizmo_spec().nodes_spec().origin),
    {
        handle != camera && handle != camera_pivot && handle != self.move_gizmo.origin
    }

    /// A press of the left mouse button on `picked`. The gizmo takes the
    /// constraint of the picked part; when a part was picked and the editor's
    /// selection is a graph selection, whose positions are
    /// `selection_positions`, a drag begins from those positions.
    pub fn on_left_mouse_button_down(
        &mut self,
        picked: NodeHandle,
        selection_positions: Option<Vec<P>>,
    ) -> (writes: Vec<ColorWrite>)
        ensures
            ({
                let nodes = old(self).gizmo_spec().nodes_spec();
                let mode = picked_mode(nodes, picked);
                &&& final(self).gizmo_spec().nodes_spec() == nodes
                &&& final(self).gizmo_spec().mode_spec() == mode
                &&& writes@ == mode_color_writes(nodes, mode)
                &&& if mode != MoveGizmoMode::Inactive && selection_positions is Some {
                    &&& final(self).interacting_spec()
                    &&& final(self).initial_positions_spec() == selection_positions->0@
                } else {
                    &&& final(self).interacting_spec() == old(self).interacting_spec()
                    &&& final(self).initial_positions_spec() == old(self).initial_positions_spec()
                }
            }),
    {
        let (picked_part, writes) = self.move_gizmo.handle_pick(picked);
        if picked_part {
            match selection_positions {
                Some(positions) => {
                    self.interacting = true;
                    self.initial_positions = positions;
                },
                None => {},
            }
        }
        writes
    }

    fn make_move_commands(nodes: &Vec<NodeHandle>, current: &Vec<P>, initial: &Vec<P>) -> (commands: Vec<MoveNodeCommand<P>>)
        ensures
            commands@ == move_commands(nodes@, current@, initial@),
    {
        let mut n = nodes.len();
        if current.len() < n {
            n = current.len();
        }
        if initial.len() < n {
            n = initial.len();
        }
        let mut commands: Vec<MoveNodeCommand<P>> = Vec::new();
        let mut k: usize = 0;
        while k < n
            invariant
                n <= nodes@.len(),
                n <= current@.len(),
                n <= initial@.len(),
                n == move_commands(nodes@, current@, initial@).len(),
                k <= n,
                commands@ == move_commands(nodes@, current@, initial@).take(k as int),
            decreases n - k,
        {
            commands.push(
                MoveNodeCommand { node: nodes[k], old_position: initial[k], new_position: current[k] },
            );
            k += 1;
            assert(commands@ =~= move_commands(nodes@, current@, initial@).take(k as int));
        }
        assert(move_commands(nodes@, current@, initial@).take(n as int) =~= move_commands(
            nodes@,
            current@,
            initial@,
        ));
        commands
    }

    /// A release of the left mouse button. During a drag on a nonempty graph
    /// selection the drag ends, and when the positions of the selected nodes,
    /// `current_positions`, differ from those the drag began from
    /// (`positions_changed`), the moves are to be recorded. Out of a drag,
    /// the click on `picked`, with the control key down or not, selects
    /// `clicked_selection(..)`, to be recorded when it differs from the
    /// editor's selection.
    pub fn on_left_mouse_button_up(
        &mut self,
        selection: Option<&GraphSelection>,
        current_positions: Vec<P>,
        positions_changed: bool,
        picked: NodeHandle,
        control: bool,
    ) -> (action: ReleaseAction<P>)
        ensures
            final(self).gizmo_spec() == old(self).gizmo_spec(),
            final(self).initial_positions_spec() == old(self).initial_positions_spec(),
            old(self).interacting_spec() && selection is Some && selection->0@.len() > 0 ==> {
                &&& !final(self).interacting_spec()
                &&& positions_changed ==> (action matches ReleaseAction::MoveNodes(commands)
                    && commands@ == move_commands(
                    selection->0@,
                    current_positions@,
                    old(self).initial_positions_spec(),
                ))
                &&& !positions_changed ==> action is Nothing
            },
            old(self).interacting_spec() && !(selection is Some && selection->0@.len() > 0) ==> {
                &&& final(self).interacting_spec()
                &&& action is Nothing
            },
            !old(self).interacting_spec() ==> {
                let new = clicked_selection(graph_nodes(selection), picked, control);
                &&& !final(self).interacting_spec()
                &&& selection_changes(graph_nodes(selection), new) ==> (action matches ReleaseAction::ChangeSelection(s) && s@ == new)
                &&& !selection_changes(graph_nodes(selection), new) ==> action is Nothing
            },
    {
        if self.interacting {
            match selection {
                Some(current) => {
                    if !current.is_empty() {
                        self.interacting = false;
                        if positions_changed {
                            let commands = Self::make_move_commands(
                                current.nodes(),
                                &current_positions,
                                &self.initial_positions,
                            );
                            return ReleaseAction::MoveNodes(commands);
                        }
                    }
                    ReleaseAction::Nothing
                },
                None => ReleaseAction::Nothing,
            }
        } else {
            let new_selection = if control && picked.is_some() {
                match selection {
                    Some(current) => {
                        let mut copy = current.copied();
                        copy.insert_or_exclude(picked);
                        copy
                    },
                    None => GraphSelection::single_or_empty(picked),
                }
            } else {
                GraphSelection::single_or_empty(picked)
            };
            let changed = match selection {
                Some(current) => !new_selection.matches(current),
                None => true,
            };
            if changed {
                ReleaseAction::ChangeSelection(new_selection)
            } else {
                ReleaseAction::Nothing
            }
        }
    }

    /// A move of the mouse: whether the selection is to be offset by the drag
    /// (see `MoveGizmo::drag_constraint`), which is so during a drag on a
    /// graph selection.
    pub fn on_mouse_move(&self, selection_is_graph: bool) -> (apply: bool)
        ensures
            apply == (self.interacting_spec() && selection_is_graph),
    {
        self.interacting && selection_is_graph
    }

    /// An update of the editor: on a nonempty graph selection the gizmo goes
    /// onto the selection and shows, on an empty one it hides, and on a
    /// selection of another kind it stays as it is.
    pub fn update(&self, selection: Option<&GraphSelection>) -> (v: GizmoVisibility)
        ensures
            v == match selection {
                Some(s) => if s@.len() > 0 {
                    GizmoVisibility::ShowOnSelection
                } else {
                    GizmoVisibility::Hide
                },
                None => GizmoVisibility::Unchanged,
            },
    {
        match selection {
            Some(s) => {
                if !s.is_empty() {
                    GizmoVisibility::ShowOnSelection
                } else {
                    GizmoVisibility::Hide
                }
            },
            None => GizmoVisibility::Unchanged,
        }
    }

    /// The mode is left: the gizmo hides.
    pub fn deactivate(&self) -> (v: GizmoVisibility)
        ensures
            v == GizmoVisibility::Hide,
    {
        GizmoVisibility::Hide
    }
}

// ---------------------------------------------------------------------------
// Laws of the interaction mode
// ---------------------------------------------------------------------------

/// The moves recorded at the end of a drag: one per selected node, as far as
/// the selection and both position lists reach (so as many as the shortest
/// of them holds), and move `k` takes node `k` from its position when the
/// drag began to its position now.
pub proof fn lemma_move_commands_one_per_node<P>(
    nodes: Seq<NodeHandle>,
    current: Seq<P>,
    initial: Seq<P>,
)
    ensures
        ({
            let commands = move_commands(nodes, current, initial);
            &&& commands.len() <= nodes.len()
            &&& commands.len() <= current.len()
            &&& commands.len() <= initial.len()
            &&& (commands.len() == nodes.len() || commands.len() == current.len()
                || commands.len() == initial.len())
            &&& forall|k: int|
                0 <= k < commands.len() ==> {
                    &&& (#[trigger] commands[k]).node == nodes[k]
                    &&& commands[k].old_position == initial[k]
                    &&& commands[k].new_position == current[k]
                }
        }),
{
}

/// The selection a click asks for. Without the control key, or with no node
/// picked, or when the editor's selection is not of graph nodes: just the
/// picked node, or nothing when no node was picked. With the control key, a
/// picked node and a graph selection: a node not selected is added at the
/// end, and a selected one is taken out where it first appears, the other
/// nodes keeping their order.
pub proof fn lemma_clicked_selection(
    current: Option<Seq<NodeHandle>>,
    picked: NodeHandle,
    control: bool,
)
    ensures
        ({
            let picked_nothing = picked.index == 0 && picked.generation == 0;
            let new = clicked_selection(current, picked, control);
            &&& !(control && !picked_nothing && current is Some) ==> new == if picked_nothing {
                Seq::<NodeHandle>::empty()
            } else {
                seq![picked]
            }
            &&& control && !picked_nothing && current is Some && !current->0.contains(picked)
                ==> new == current->0.push(picked)
            &&& control && !picked_nothing && current is Some && current->0.contains(picked)
                ==> exists|p: int|
                0 <= p < current->0.len() && #[trigger] current->0[p] == picked && (forall|j: int|
                    0 <= j < p ==> current->0[j] != picked) && new == current->0.subrange(0, p)
                    + current->0.subrange(p + 1, current->0.len() as int)
        }),
{
    let picked_nothing = picked.index == 0 && picked.generation == 0;
    if control && !picked_nothing && current is Some && current->0.contains(picked) {
        let s = current->0;
        lemma_first_position_exists(s, picked);
        let p = first_position(s, picked);
        assert(s[p] == picked);
    }
}

/// Whether a click's selection is recorded: always when the editor's
/// selection is not of graph nodes; otherwise exactly when the new selection
/// is empty while the current one is not, or holds a node the current one
/// does not.
pub proof fn lemma_selection_changes(current: Option<Seq<NodeHandle>>, new: Seq<NodeHandle>)
    ensures
        current is None ==> selection_changes(current, new),
        current is Some ==> (selection_changes(current, new) <==> ((new.len() == 0
            && current->0.len() > 0) || exists|k: int|
            0 <= k < new.len() && !current->0.contains(#[trigger] new[k]))),
{
}

/// On a gizmo whose parts have distinct nodes, a part shows highlighted in a
/// mode exactly when picking that part selects the mode: the two axes and
/// arrows pick their axis, and each plane square picks its plane.
pub proof fn lemma_highlight_is_pick(nodes: GizmoNodes, mode: MoveGizmoMode, part: GizmoPart)
    requires
        distinct_parts(nodes),
    ensures
        highlights(mode, part) <==> picked_mode(nodes, part_node_spec(nodes, part)) == mode,
        picked_mode(nodes, nodes.x_axis) == MoveGizmoMode::X,
        picked_mode(nodes, nodes.x_arrow) == MoveGizmoMode::X,
        picked_mode(nodes, nodes.y_axis) == MoveGizmoMode::Y,
        picked_mode(nodes, nodes.y_arrow) == MoveGizmoMode::Y,
        picked_mode(nodes, nodes.z_axis) == MoveGizmoMode::Z,
        picked_mode(nodes, nodes.z_arrow) == MoveGizmoMode::Z,
        picked_mode(nodes, nodes.xy_plane) == MoveGizmoMode::XY,
        picked_mode(nodes, nodes.yz_plane) == MoveGizmoMode::YZ,
        picked_mode(nodes, nodes.zx_plane) == MoveGizmoMode::ZX,
{
    let n = |p: GizmoPart| part_node_spec(nodes, p);
    assert(n(GizmoPart::XAxis) != n(GizmoPart::XArrow));
    assert(n(GizmoPart::YAxis) != n(GizmoPart::XAxis));
    assert(n(GizmoPart::YAxis) != n(GizmoPart::XArrow));
    assert(n(GizmoPart::YArrow) != n(GizmoPart::XAxis));
    assert(n(GizmoPart::YArrow) != n(GizmoPart::XArrow));
    assert(n(GizmoPart::ZAxis) != n(GizmoPart::XAxis));
    assert(n(GizmoPart::ZAxis) != n(GizmoPart::XArrow));
    assert(n(GizmoPart::ZAxis) != n(GizmoPart::YAxis));
    assert(n(GizmoPart::ZAxis) != n(GizmoPart::YArrow));
    assert(n(GizmoPart::ZArrow) != n(GizmoPart::XAxis));
    assert(n(GizmoPart::ZArrow) != n(GizmoPart::XArrow));
    assert(n(GizmoPart::ZArrow) != n(GizmoPart::YAxis));
    assert(n(GizmoPart::ZArrow) != n(GizmoPart::YArrow));
    assert(n(GizmoPart::ZXPlane) != n(GizmoPart::XAxis));
    assert(n(GizmoPart::ZXPlane) != n(GizmoPart::XArrow));
    assert(n(GizmoPart::ZXPlane) != n(GizmoPart::YAxis));
    assert(n(GizmoPart::ZXPlane) != n(GizmoPart::YArrow));
    assert(n(GizmoPart::ZXPlane) != n(GizmoPart::ZAxis));
    assert(n(GizmoPart::ZXPlane) != n(GizmoPart::ZArrow));
    assert(n(GizmoPart::XYPlane) != n(GizmoPart::XAxis));
    assert(n(GizmoPart::XYPlane) != n(GizmoPart::XArrow));
    assert(n(GizmoPart::XYPlane) != n(GizmoPart::YAxis));
    assert(n(GizmoPart::XYPlane) != n(GizmoPart::YArrow));
    assert(n(GizmoPart::XYPlane) != n(GizmoPart::ZAxis));
    assert(n(GizmoPart::XYPlane) != n(GizmoPart::ZArrow));
    assert(n(GizmoPart::XYPlane) != n(GizmoPart::ZXPlane));
    assert(n(GizmoPart::YZPlane) != n(GizmoPart::XAxis));
    assert(n(GizmoPart::YZPlane) != n(GizmoPart::XArrow));
    assert(n(GizmoPart::YZPlane) != n(GizmoPart::YAxis));
    assert(n(GizmoPart::YZPlane) != n(GizmoPart::YArrow));
    assert(n(GizmoPart::YZPlane) != n(GizmoPart::ZAxis));
    assert(n(GizmoPart::YZPlane) != n(GizmoPart::ZArrow));
    assert(n(GizmoPart::YZPlane) != n(GizmoPart::ZXPlane));
    assert(n(GizmoPart::YZPlane) != n(GizmoPart::XYPlane));
}

/// The colors of the gizmo: the X, Y and Z axes and their arrows are red,
/// green and blue; each plane square has the color of the axis it is
/// normal to; the highlight is opaque yellow, unlike every base color.
pub proof fn lemma_gizmo_colors(part: GizmoPart)
    ensures
        base_color_spec(GizmoPart::XAxis) == (Color { r: 255, g: 0, b: 0, a: 255 }),
        base_color_spec(GizmoPart::YAxis) == (Color { r: 0, g: 255, b: 0, a: 255 }),
        base_color_spec(GizmoPart::ZAxis) == (Color { r: 0, g: 0, b: 255, a: 255 }),
        base_color_spec(GizmoPart::XArrow) == base_color_spec(GizmoPart::XAxis),
        base_color_spec(GizmoPart::YArrow) == base_color_spec(GizmoPart::YAxis),
        base_color_spec(GizmoPart::ZArrow) == base_color_spec(GizmoPart::ZAxis),
        base_color_spec(GizmoPart::YZPlane) == base_color_spec(GizmoPart::XAxis),
        base_color_spec(GizmoPart::ZXPlane) == base_color_spec(GizmoPart::YAxis),
        base_color_spec(GizmoPart::XYPlane) == base_color_spec(GizmoPart::ZAxis),
        highlight_color_spec() == (Color { r: 255, g: 255, b: 0, a: 255 }),
        highlight_color_spec() != base_color_spec(part),
{
}

// ---------------------------------------------------------------------------
// Laws of the gizmo
// ---------------------------------------------------------------------------

/// A pick selects a constraint exactly when it hits one of the gizmo's parts.
pub proof fn lemma_pick_hits_part(nodes: GizmoNodes, picked: NodeHandle)
    ensures
        picked_mode(nodes, picked) != MoveGizmoMode::Inactive <==> exists|p: GizmoPart|
            part_node_spec(nodes, p) == picked,
{
    if picked_mode(nodes, picked) == MoveGizmoMode::Inactive {
        assert forall|p: GizmoPart| part_node_spec(nodes, p) != picked by {
            match p {
                GizmoPart::XAxis => {},
                GizmoPart::XArrow => {},
                GizmoPart::YAxis => {},
                GizmoPart::YArrow => {},
                GizmoPart::ZAxis => {},
                GizmoPart::ZArrow => {},
                GizmoPart::XYPlane => {},
                GizmoPart::YZPlane => {},
                GizmoPart::ZXPlane => {},
            }
        }
    } else {
        if picked == nodes.x_axis {
            assert(part_node_spec(nodes, GizmoPart::XAxis) == picked);
        } else if picked == nodes.x_arrow {
            assert(part_node_spec(nodes, GizmoPart::XArrow) == picked);
        } else if picked == nodes.y_axis {
            assert(part_node_spec(nodes, GizmoPart::YAxis) == picked);
        } else if picked == nodes.y_arrow {
            assert(part_node_spec(nodes, GizmoPart::YArrow) == picked);
        } else if picked == nodes.z_axis {
            assert(part_node_spec(nodes, GizmoPart::ZAxis) == picked);
        } else if picked == nodes.z_arrow {
            assert(part_node_spec(nodes, GizmoPart::ZArrow) == picked);
        } else if picked == nodes.zx_plane {
            assert(part_node_spec(nodes, GizmoPart::ZXPlane) == picked);
        } else if picked == nodes.xy_plane {
            assert(part_node_spec(nodes, GizmoPart::XYPlane) == picked);
        } else {
            assert(part_node_spec(nodes, GizmoPart::YZPlane) == picked);
        }
    }
}

/// On a gizmo whose parts have distinct nodes, picking a part selects a
/// constraint that the part belongs to, so the part shows highlighted.
pub proof fn lemma_pick_highlights_part(nodes: GizmoNodes, part: GizmoPart)
    requires
        distinct_parts(nodes),
    ensures
        highlights(picked_mode(nodes, part_node_spec(nodes, part)), part),
{
    assert(part_node_spec(nodes, GizmoPart::XAxis) != part_node_spec(nodes, GizmoPart::XArrow));
    match part {
        GizmoPart::XAxis => {},
        GizmoPart::XArrow => {},
        GizmoPart::YAxis => {
            assert(part_node_spec(nodes, GizmoPart::YAxis) != part_node_spec(nodes, GizmoPart::XAxis));
            assert(part_node_spec(nodes, GizmoPart::YAxis) != part_node_spec(nodes, GizmoPart::XArrow));
        },
        GizmoPart::YArrow => {
            assert(part_node_spec(nodes, GizmoPart::YArrow) != part_node_spec(nodes, GizmoPart::XAxis));
            assert(part_node_spec(nodes, GizmoPart::YArrow) != part_node_spec(nodes, GizmoPart::XArrow));
        },
        GizmoPart::ZAxis => {
            assert(part_node_spec(nodes, GizmoPart::ZAxis) != part_node_spec(nodes, GizmoPart::XAxis));
            assert(part_node_spec(nodes, GizmoPart::ZAxis) != part_node_spec(nodes, GizmoPart::XArrow));
            assert(part_node_spec(nodes, GizmoPart::ZAxis) != part_node_spec(nodes, GizmoPart::YAxis));
            assert(part_node_spec(nodes, GizmoPart::ZAxis) != part_node_spec(nodes, GizmoPart::YArrow));
        },
        GizmoPart::ZArrow => {
            assert(part_node_spec(nodes, GizmoPart::ZArrow) != part_node_spec(nodes, GizmoPart::XAxis));
            assert(part_node_spec(nodes, GizmoPart::ZArrow) != part_node_spec(nodes, GizmoPart::XArrow));
            assert(part_node_spec(nodes, GizmoPart::ZArrow) != part_node_spec(nodes, GizmoPart::YAxis));
            assert(part_node_spec(nodes, GizmoPart::ZArrow) != part_node_spec(nodes, GizmoPart::YArrow));
        },
        GizmoPart::ZXPlane => {
            assert(part_node_spec(nodes, GizmoPart::ZXPlane) != part_node_spec(nodes, GizmoPart::XAxis));
            assert(part_node_spec(nodes, GizmoPart::ZXPlane) != part_node_spec(nodes, GizmoPart::XArrow));
            assert(part_node_spec(nodes, GizmoPart::ZXPlane) != part_node_spec(nodes, GizmoPart::YAxis));
            assert(part_node_spec(nodes, GizmoPart::ZXPlane) != part_node_spec(nodes, GizmoPart::YArrow));
            assert(part_node_spec(nodes, GizmoPart::ZXPlane) != part_node_spec(nodes, GizmoPart::ZAxis));
            assert(part_node_spec(nodes, GizmoPart::ZXPlane) != part_node_spec(nodes, GizmoPart::ZArrow));
        },
        GizmoPart::XYPlane => {
            assert(part_node_spec(nodes, GizmoPart::XYPlane) != part_node_spec(nodes, GizmoPart::XAxis));
            assert(part_node_spec(nodes, GizmoPart::XYPlane) != part_node_spec(nodes, GizmoPart::XArrow));
            assert(part_node_spec(nodes, GizmoPart::XYPlane) != part_node_spec(nodes, GizmoPart::YAxis));
            assert(part_node_spec(nodes, GizmoPart::XYPlane) != part_node_spec(nodes, GizmoPart::YArrow));
            assert(part_node_spec(nodes, GizmoPart::XYPlane) != part_node_spec(nodes, GizmoPart::ZAxis));
            assert(part_node_spec(nodes, GizmoPart::XYPlane) != part_node_spec(nodes, GizmoPart::ZArrow));
            assert(part_node_spec(nodes, GizmoPart::XYPlane) != part_node_spec(nodes, GizmoPart::ZXPlane));
        },
        GizmoPart::YZPlane => {
            assert(part_node_spec(nodes, GizmoPart::YZPlane) != part_node_spec(nodes, GizmoPart::XAxis));
            assert(part_node_spec(nodes, GizmoPart::YZPlane) != part_node_spec(nodes, GizmoPart::XArrow));
            assert(part_node_spec(nodes, GizmoPart::YZPlane) != part_node_spec(nodes, GizmoPart::YAxis));
            assert(part_node_spec(nodes, GizmoPart::YZPlane) != part_node_spec(nodes, GizmoPart::YArrow));
            assert(part_node_spec(nodes, GizmoPart::YZPlane) != part_node_spec(nodes, GizmoPart::ZAxis));
            assert(part_node_spec(nodes, GizmoPart::YZPlane) != part_node_spec(nodes, GizmoPart::ZArrow));
            assert(part_node_spec(nodes, GizmoPart::YZPlane) != part_node_spec(nodes, GizmoPart::ZXPlane));
            assert(part_node_spec(nodes, GizmoPart::YZPlane) != part_node_spec(nodes, GizmoPart::XYPlane));
        },
    }
}

/// The last color written to a node that is in none of the writes is none.
proof fn lemma_last_color_untouched(writes: Seq<ColorWrite>, node: NodeHandle)
    requires
        forall|k: int| 0 <= k < writes.len() ==> (#[trigger] writes[k]).node != node,
    ensures
        last_color(writes, node) is None,
    decreases writes.len(),
{
    if writes.len() > 0 {
        let prefix = writes.drop_last();
        assert(writes[writes.len() - 1].node != node);
        assert forall|k: int| 0 <= k < prefix.len() implies (#[trigger] prefix[k]).node != node by {
            assert(prefix[k] == writes[k]);
        }
        lemma_last_color_untouched(prefix, node);
    }
}

/// The last color written to a node is the one of its last write in `tail`
/// when `tail` writes it, and its last color in `head` otherwise.
proof fn lemma_last_color_concat(head: Seq<ColorWrite>, tail: Seq<ColorWrite>, node: NodeHandle)
    ensures
        last_color(head + tail, node) == if last_color(tail, node) is Some {
            last_color(tail, node)
        } else {
            last_color(head, node)
        },
    decreases tail.len(),
{
    if tail.len() == 0 {
        assert(head + tail =~= head);
    } else {
        assert((head + tail).drop_last() =~= head + tail.drop_last());
        assert((head + tail).last() == tail.last());
        lemma_last_color_concat(head, tail.drop_last(), node);
    }
}

/// The last color `writes` gives `node`, when exactly one of them writes it.
proof fn lemma_last_color_single(writes: Seq<ColorWrite>, node: NodeHandle, k: int)
    requires
        0 <= k < writes.len(),
        writes[k].node == node,
        forall|j: int| 0 <= j < writes.len() && j != k ==> (#[trigger] writes[j]).node != node,
    ensures
        last_color(writes, node) == Some(writes[k].color),
    decreases writes.len(),
{
    let prefix = writes.drop_last();
    if k == writes.len() - 1 {
    } else {
        assert(writes[writes.len() - 1].node != node);
        assert(prefix[k] == writes[k]);
        assert forall|j: int| 0 <= j < prefix.len() && j != k implies (#[trigger] prefix[j]).node
            != node by {
            assert(prefix[j] == writes[j]);
        }
        lemma_last_color_single(prefix, node, k);
    }
}

/// The position of `part` in `restore_order()`.
pub open spec fn restore_position(part: GizmoPart) -> int {
    match part {
        GizmoPart::XAxis => 0,
        GizmoPart::XArrow => 1,
        GizmoPart::YAxis => 2,
        GizmoPart::YArrow => 3,
        GizmoPart::ZAxis => 4,
        GizmoPart::ZArrow => 5,
        GizmoPart::ZXPlane => 6,
        GizmoPart::YZPlane => 7,
        GizmoPart::XYPlane => 8,
    }
}

/// On a gizmo whose parts have distinct nodes, after the color changes of
/// `set_mode(mode)` every part shows the highlight color when it belongs to
/// `mode` and its base color otherwise, and no other node changes color.
pub proof fn lemma_mode_colors(nodes: GizmoNodes, mode: MoveGizmoMode, part: GizmoPart, other: NodeHandle)
    requires
        distinct_parts(nodes),
    ensures
        last_color(mode_color_writes(nodes, mode), part_node_spec(nodes, part)) == Some(
            part_color_spec(mode, part),
        ),
        (forall|p: GizmoPart| part_node_spec(nodes, p) != other) ==> last_color(
            mode_color_writes(nodes, mode),
            other,
        ) is None,
{
    let node = part_node_spec(nodes, part);
    let restore = restore_order().map_values(
        |p: GizmoPart| ColorWrite { node: part_node_spec(nodes, p), color: base_color_spec(p) },
    );
    let high = highlight_order(mode).map_values(
        |p: GizmoPart| ColorWrite { node: part_node_spec(nodes, p), color: highlight_color_spec() },
    );
    assert(mode_color_writes(nodes, mode) == restore + high);
    lemma_last_color_concat(restore, high, node);
    lemma_last_color_concat(restore, high, other);
    // The restoring writes give every part its base color.
    let k = restore_position(part);
    assert(restore_order()[k] == part);
    assert forall|j: int| 0 <= j < restore.len() && j != k implies (#[trigger] restore[j]).node
        != node by {
        assert(restore[j].node == part_node_spec(nodes, restore_order()[j]));
        assert(restore_order()[j] != part);
    }
    lemma_last_color_single(restore, node, k);
    // The highlighting writes touch the parts of the mode only.
    if highlights(mode, part) {
        let hk = if highlight_order(mode).len() == 2 && highlight_order(mode)[1] == part {
            1int
        } else {
            0int
        };
        assert(highlight_order(mode)[hk] == part);
        assert forall|j: int| 0 <= j < high.len() && j != hk implies (#[trigger] high[j]).node
            != node by {
            assert(high[j].node == part_node_spec(nodes, highlight_order(mode)[j]));
            assert(highlight_order(mode)[j] != part);
        }
        lemma_last_color_single(high, node, hk);
    } else {
        assert forall|j: int| 0 <= j < high.len() implies (#[trigger] high[j]).node != node by {
            assert(high[j].node == part_node_spec(nodes, highlight_order(mode)[j]));
            assert(highlight_order(mode)[j] != part);
        }
        lemma_last_color_untouched(high, node);
    }
    if forall|p: GizmoPart| part_node_spec(nodes, p) != other {
        assert forall|j: int| 0 <= j < high.len() implies (#[trigger] high[j]).node != other by {
            assert(high[j].node == part_node_spec(nodes, highlight_order(mode)[j]));
        }
        assert forall|j: int| 0 <= j < restore.len() implies (#[trigger] restore[j]).node
            != other by {
            assert(restore[j].node == part_node_spec(nodes, restore_order()[j]));
        }
        lemma_last_color_untouched(high, other);
        lemma_last_color_untouched(restore, other);
    }
}

/// A drag moves the selection along exactly the axes of the active
/// constraint, and the plane the rays are cast on holds each of them.
pub proof fn lemma_drag_follows_mode(mode: MoveGizmoMode, axis: Axis)
    ensures
        drag_constraint_spec(mode) is None <==> mode == MoveGizmoMode::Inactive,
        drag_constraint_spec(mode) matches Some(c) ==> keeps(c, axis) == mode_moves_along(
            mode,
            axis,
        ) && (keeps(c, axis) ==> plane_holds(c.plane, axis)),
{
}

} // verus!
