//! What is drawn: the frame that the engine hands to the drawing backend, made of the
//! values for the point cloud and of lines and labels for the axes.

use vstd::prelude::*;
use crate::arith::{div_floor_exec, lemma_div_scaled};
use crate::axis::MARGIN;
use crate::projection::Projection;
use crate::render::{Renderer, WindowEvent};
use crate::data::Table;
use crate::textdrawer::{AnchorHor, AnchorVert};
use crate::ticks::{TickPlan, TickPlanView, VISIBLE_LIMIT};

verus! {

/// The pixels wanted between two ticks.
pub const TICK_DISTANCE: i32 = 60;

/// The distance of the name of an axis from the edge of the window.
pub const LABEL_MARGIN: i64 = 50;

/// The distance of the readouts from the edge of the window.
pub const INFO_MARGIN: i64 = 2;

/// The length of a tick.
pub const TICK_LENGTH: i64 = 6;

/// The distance of the label of a tick from the axis.
pub const LABEL_GAP: i64 = 10;

/// The distance of the depth axis from the lower edge of the window.
pub const DEPTH_MARGIN: i64 = 26;

/// The text of a label.
#[derive(Clone, Copy, Debug, PartialEq, Eq, Structural)]
pub enum Label {
    /// The help text.
    Help,
    /// The name of the column at this place.
    Column(usize),
    /// `z: ` and the name of the column at this place.
    Depth(usize),
    /// `#objects: ` and this number.
    Objects(usize),
    /// The number `value / 10^decimals`, with at most `digits` decimal places.
    Number { value: i128, decimals: u32, digits: u32 },
}

/// How a line is drawn: an axis two pixels wide, a tick one pixel wide.
#[derive(Clone, Copy, Debug, PartialEq, Eq, Structural)]
pub enum Stroke {
    Axis,
    Tick,
}

/// One thing to draw on top of the points. Positions are in pixels from the upper
/// left corner of the window; a text is turned by `rotation` degrees about its anchor.
#[derive(Clone, Copy, Debug, PartialEq, Eq, Structural)]
pub enum DrawCommand {
    Line { x0: i64, y0: i64, x1: i64, y1: i64, stroke: Stroke },
    Text { x: i64, y: i64, rotation: i32, hor: AnchorHor, vert: AnchorVert, label: Label },
}

/// The three axes.
#[derive(Clone, Copy, Debug, PartialEq, Eq, Structural)]
pub enum Axis {
    X,
    Y,
    Z,
}

/// The pixel of a marker along an axis of `length` pixels that runs with the values:
/// the marker's share of the visible range, taken of the pixels between the margins
/// and rounded down.
pub open spec fn tick_position(plan: TickPlanView, marker: int, length: int) -> int {
    MARGIN + ((marker - plan.visible_min) * (length - 2 * MARGIN)) / (plan.visible_max
        - plan.visible_min)
}

/// The pixel of a marker along an axis that runs against the values, as the second
/// axis does, whose pixels count downwards.
pub open spec fn tick_position_reversed(plan: TickPlanView, marker: int, length: int) -> int {
    MARGIN + ((plan.visible_max - marker) * (length - 2 * MARGIN)) / (plan.visible_max
        - plan.visible_min)
}

/// The label of a marker: its value with one decimal place more than the step has.
pub open spec fn marker_label(plan: TickPlanView, marker: int) -> Label {
    Label::Number {
        value: marker as i128,
        decimals: plan.decimals as u32,
        digits: (plan.fraction_digits + 1) as u32,
    }
}

/// What is drawn for one marker of an axis, in a window of `lx` by `ly` pixels: on
/// the first two axes a label and a tick on either side of the plot, on the depth
/// axis one label and one tick.
pub open spec fn marker_commands(axis: Axis, plan: TickPlanView, marker: int, lx: int, ly: int) -> Seq<
    DrawCommand,
> {
    let label = marker_label(plan, marker);
    match axis {
        Axis::X => {
            let pos = tick_position(plan, marker, lx) as i64;
            seq![
                DrawCommand::Text {
                    x: pos,
                    y: (MARGIN - LABEL_GAP) as i64,
                    rotation: 270,
                    hor: AnchorHor::Left,
                    vert: AnchorVert::Middle,
                    label,
                },
                DrawCommand::Text {
                    x: pos,
                    y: (ly - MARGIN + LABEL_GAP) as i64,
                    rotation: 90,
                    hor: AnchorHor::Left,
                    vert: AnchorVert::Middle,
                    label,
                },
                DrawCommand::Line {
                    x0: pos,
                    y0: (MARGIN - TICK_LENGTH) as i64,
                    x1: pos,
                    y1: MARGIN as i64,
                    stroke: Stroke::Tick,
                },
                DrawCommand::Line {
                    x0: pos,
                    y0: (ly - MARGIN + TICK_LENGTH) as i64,
                    x1: pos,
                    y1: (ly - MARGIN) as i64,
                    stroke: Stroke::Tick,
                },
            ]
        },
        Axis::Y => {
            let pos = tick_position_reversed(plan, marker, ly) as i64;
            seq![
                DrawCommand::Text {
                    x: (MARGIN - LABEL_GAP) as i64,
                    y: pos,
                    rotation: 0,
                    hor: AnchorHor::Right,
                    vert: AnchorVert::Middle,
                    label,
                },
                DrawCommand::Text {
                    x: (lx - MARGIN + LABEL_GAP) as i64,
                    y: pos,
                    rotation: 0,
                    hor: AnchorHor::Left,
                    vert: AnchorVert::Middle,
                    label,
                },
                DrawCommand::Line {
                    x0: (MARGIN - TICK_LENGTH) as i64,
                    y0: pos,
                    x1: MARGIN as i64,
                    y1: pos,
                    stroke: Stroke::Tick,
                },
                DrawCommand::Line {
                    x0: (lx - MARGIN + TICK_LENGTH) as i64,
                    y0: pos,
                    x1: (lx - MARGIN) as i64,
                    y1: pos,
                    stroke: Stroke::Tick,
                },
            ]
        },
        Axis::Z => {
            let pos = tick_position(plan, marker, lx) as i64;
            seq![
                DrawCommand::Text {
                    x: pos,
                    y: (ly - DEPTH_MARGIN - LABEL_GAP) as i64,
                    rotation: 0,
                    hor: AnchorHor::Center,
                    vert: AnchorVert::Bottom,
                    label,
                },
                DrawCommand::Line {
                    x0: pos,
                    y0: (ly - DEPTH_MARGIN - TICK_LENGTH) as i64,
                    x1: pos,
                    y1: (ly - DEPTH_MARGIN) as i64,
                    stroke: Stroke::Tick,
                },
            ]
        },
    }
}

/// What is drawn for the first `count` markers of an axis.
pub open spec fn markers_commands(axis: Axis, plan: TickPlanView, lx: int, ly: int, count: nat) -> Seq<
    DrawCommand,
>
    decreases count,
{
    if count == 0 {
        Seq::empty()
    } else {
        markers_commands(axis, plan, lx, ly, (count - 1) as nat) + marker_commands(
            axis,
            plan,
            plan.markers[count - 1],
            lx,
            ly,
        )
    }
}

/// What is drawn for an axis but its markers, in a window of `lx` by `ly` pixels: on
/// the first two axes a line and the name of the column on either side of the plot,
/// on the depth axis one line and the name at the lower left corner.
pub open spec fn axis_frame(axis: Axis, column: usize, lx: int, ly: int) -> Seq<DrawCommand> {
    match axis {
        Axis::X => seq![
            DrawCommand::Line {
                x0: MARGIN as i64,
                y0: MARGIN as i64,
                x1: (lx - MARGIN) as i64,
                y1: MARGIN as i64,
                stroke: Stroke::Axis,
            },
            DrawCommand::Line {
                x0: MARGIN as i64,
                y0: (ly - MARGIN) as i64,
                x1: (lx - MARGIN) as i64,
                y1: (ly - MARGIN) as i64,
                stroke: Stroke::Axis,
            },
            DrawCommand::Text {
                x: (lx / 2) as i64,
                y: LABEL_MARGIN,
                rotation: 0,
                hor: AnchorHor::Center,
                vert: AnchorVert::Top,
                label: Label::Column(column),
            },
            DrawCommand::Text {
                x: (lx / 2) as i64,
                y: (ly - LABEL_MARGIN) as i64,
                rotation: 0,
                hor: AnchorHor::Center,
                vert: AnchorVert::Bottom,
                label: Label::Column(column),
            },
        ],
        Axis::Y => seq![
            DrawCommand::Line {
                x0: MARGIN as i64,
                y0: MARGIN as i64,
                x1: MARGIN as i64,
                y1: (ly - MARGIN) as i64,
                stroke: Stroke::Axis,
            },
            DrawCommand::Line {
                x0: (lx - MARGIN) as i64,
                y0: MARGIN as i64,
                x1: (lx - MARGIN) as i64,
                y1: (ly - MARGIN) as i64,
                stroke: Stroke::Axis,
            },
            DrawCommand::Text {
                x: LABEL_MARGIN,
                y: (ly / 2) as i64,
                rotation: 270,
                hor: AnchorHor::Center,
                vert: AnchorVert::Top,
                label: Label::Column(column),
            },
            DrawCommand::Text {
                x: (lx - LABEL_MARGIN) as i64,
                y: (ly / 2) as i64,
                rotation: 90,
                hor: AnchorHor::Center,
                vert: AnchorVert::Top,
                label: Label::Column(column),
            },
        ],
        Axis::Z => seq![
            DrawCommand::Line {
                x0: MARGIN as i64,
                y0: (ly - DEPTH_MARGIN) as i64,
                x1: (lx - MARGIN) as i64,
                y1: (ly - DEPTH_MARGIN) as i64,
                stroke: Stroke::Axis,
            },
            DrawCommand::Text {
                x: INFO_MARGIN,
                y: (ly - INFO_MARGIN) as i64,
                rotation: 0,
                hor: AnchorHor::Left,
                vert: AnchorVert::Bottom,
                label: Label::Depth(column),
            },
        ],
    }
}

/// Everything that is drawn for an axis.
pub open spec fn axis_commands(axis: Axis, plan: TickPlanView, column: usize, lx: int, ly: int) -> Seq<
    DrawCommand,
> {
    axis_frame(axis, column, lx, ly) + markers_commands(axis, plan, lx, ly, plan.markers.len())
}

/// Whether the markers of a plan can be placed on an axis of `length` pixels: they
/// lie within the visible range, which is within the limits of the planner, and
/// where there are any, the range is not empty and some pixels lie between the margins.
pub open spec fn drawable(plan: TickPlanView, length: int) -> bool {
    &&& plan.visible_max - plan.visible_min <= 2 * VISIBLE_LIMIT
    &&& plan.fraction_digits <= 43
    &&& forall|i: int|
        0 <= i < plan.markers.len() ==> plan.visible_min <= #[trigger] plan.markers[i]
            <= plan.visible_max
    &&& plan.markers.len() > 0 ==> plan.visible_min < plan.visible_max && length - 2 * MARGIN
        > 0
}

/// The share `part / whole` of `pixels`, rounded down.
fn share(part: i128, whole: i128, pixels: i64) -> (r: i64)
    requires
        0 <= part <= whole <= 2 * VISIBLE_LIMIT,
        0 < whole,
        0 <= pixels <= 0x1_0000_0000,
    ensures
        r == (part * pixels) / (whole as int),
        0 <= r <= pixels,
{
    assert(0 <= part * pixels <= pixels * whole) by (nonlinear_arith)
        requires
            0 <= part <= whole,
            0 <= pixels,
    ;
    assert(pixels * whole <= 0x2000_0000_0000_0000_0000_0000_0000_0000) by (nonlinear_arith)
        requires
            0 < whole <= 6_000_000_000_000_000_000_000_000_000,
            0 <= pixels <= 0x1_0000_0000,
    ;
    proof {
        lemma_div_scaled(part * pixels, whole as int, pixels as int);
    }
    div_floor_exec(part * (pixels as i128), whole) as i64
}

/// Adds to `commands` what is drawn for the markers of an axis.
fn draw_markers(axis: Axis, plan: &TickPlan, lx: i32, ly: i32, commands: &mut Vec<DrawCommand>)
    requires
        drawable(
            plan@,
            if axis == Axis::Y {
                ly as int
            } else {
                lx as int
            },
        ),
    ensures
        final(commands)@ == old(commands)@ + markers_commands(
            axis,
            plan@,
            lx as int,
            ly as int,
            plan@.markers.len(),
        ),
{
    let margin: i64 = MARGIN as i64;
    let width: i64 = lx as i64;
    let height: i64 = ly as i64;
    let mut i: usize = 0;
    assert(commands@ =~= old(commands)@ + markers_commands(axis, plan@, lx as int, ly as int, 0));
    while i < plan.markers.len()
        invariant
            i <= plan.markers.len(),
            margin == MARGIN,
            width == lx,
            height == ly,
            drawable(
                plan@,
                if axis == Axis::Y {
                    ly as int
                } else {
                    lx as int
                },
            ),
            commands@ == old(commands)@ + markers_commands(
                axis,
                plan@,
                lx as int,
                ly as int,
                i as nat,
            ),
        decreases plan.markers.len() - i,
    {
        let marker: i128 = plan.markers[i];
        assert(plan@.markers[i as int] == marker);
        let whole: i128 = plan.visible_max - plan.visible_min;
        let label: Label = Label::Number {
            value: marker,
            decimals: plan.decimals,
            digits: plan.fraction_digits + 1,
        };
        let ghost before = commands@;
        match axis {
            Axis::X => {
                let pos: i64 = margin + share(marker - plan.visible_min, whole, width - 2 * margin);
                commands.push(
                    DrawCommand::Text {
                        x: pos,
                        y: margin - LABEL_GAP,
                        rotation: 270,
                        hor: AnchorHor::Left,
                        vert: AnchorVert::Middle,
                        label,
                    },
                );
                commands.push(
                    DrawCommand::Text {
                        x: pos,
                        y: height - margin + LABEL_GAP,
                        rotation: 90,
                        hor: AnchorHor::Left,
                        vert: AnchorVert::Middle,
                        label,
                    },
                );
                commands.push(
                    DrawCommand::Line {
                        x0: pos,
                        y0: margin - TICK_LENGTH,
                        x1: pos,
                        y1: margin,
                        stroke: Stroke::Tick,
                    },
                );
                commands.push(
                    DrawCommand::Line {
                        x0: pos,
                        y0: height - margin + TICK_LENGTH,
                        x1: pos,
                        y1: height - margin,
                        stroke: Stroke::Tick,
                    },
                );
            },
            Axis::Y => {
                let pos: i64 = margin + share(plan.visible_max - marker, whole, height - 2 * margin);
                commands.push(
                    DrawCommand::Text {
                        x: margin - LABEL_GAP,
                        y: pos,
                        rotation: 0,
                        hor: AnchorHor::Right,
                        vert: AnchorVert::Middle,
                        label,
                    },
                );
                commands.push(
                    DrawCommand::Text {
                        x: width - margin + LABEL_GAP,
                        y: pos,
                        rotation: 0,
                        hor: AnchorHor::Left,
                        vert: AnchorVert::Middle,
                        label,
                    },
                );
                commands.push(
                    DrawCommand::Line {
                        x0: margin - TICK_LENGTH,
                        y0: pos,
                        x1: margin,
                        y1: pos,
                        stroke: Stroke::Tick,
                    },
                );
                commands.push(
                    DrawCommand::Line {
                        x0: width - margin + TICK_LENGTH,
                        y0: pos,
                        x1: width - margin,
                        y1: pos,
                        stroke: Stroke::Tick,
                    },
                );
            },
            Axis::Z => {
                let pos: i64 = margin + share(marker - plan.visible_min, whole, width - 2 * margin);
                commands.push(
                    DrawCommand::Text {
                        x: pos,
                        y: height - DEPTH_MARGIN - LABEL_GAP,
                        rotation: 0,
                        hor: AnchorHor::Center,
                        vert: AnchorVert::Bottom,
                        label,
                    },
                );
                commands.push(
                    DrawCommand::Line {
                        x0: pos,
                        y0: height - DEPTH_MARGIN - TICK_LENGTH,
                        x1: pos,
                        y1: height - DEPTH_MARGIN,
                        stroke: Stroke::Tick,
                    },
                );
            },
        }
        proof {
            assert(commands@ =~= before + marker_commands(
                axis,
                plan@,
                marker as int,
                lx as int,
                ly as int,
            ));
            assert(commands@ =~= old(commands)@ + markers_commands(
                axis,
                plan@,
                lx as int,
                ly as int,
                (i + 1) as nat,
            ));
        }
        i = i + 1;
    }
}

/// One frame: the values for the point cloud, and what is drawn on top of it.
///
/// `pan_x` to `zoom_z` are pan and zoom of the three axes as the points are drawn
/// with them; those of the depth are the engine's `dimz_delta` and `dimz_scale`.
/// `column_x` to `column_z` are the places of the columns that the points take
/// their coordinates from.
pub struct Frame {
    pub width: i32,
    pub height: i32,
    pub count: usize,
    pub point_scale: i64,
    pub alpha_scale: i64,
    pub projection: Projection,
    pub pan_x: i64,
    pub zoom_x: i64,
    pub pan_y: i64,
    pub zoom_y: i64,
    pub pan_z: i64,
    pub zoom_z: i64,
    pub column_x: usize,
    pub column_y: usize,
    pub column_z: usize,
    pub commands: Vec<DrawCommand>,
}

/// A `Frame` as mathematical values.
pub struct FrameView {
    pub width: i32,
    pub height: i32,
    pub count: usize,
    pub point_scale: i64,
    pub alpha_scale: i64,
    pub projection: Projection,
    pub pan_x: i64,
    pub zoom_x: i64,
    pub pan_y: i64,
    pub zoom_y: i64,
    pub pan_z: i64,
    pub zoom_z: i64,
    pub column_x: usize,
    pub column_y: usize,
    pub column_z: usize,
    pub commands: Seq<DrawCommand>,
}

impl View for Frame {
    type V = FrameView;

    open spec fn view(&self) -> FrameView {
        FrameView {
            width: self.width,
            height: self.height,
            count: self.count,
            point_scale: self.point_scale,
            alpha_scale: self.alpha_scale,
            projection: self.projection,
            pan_x: self.pan_x,
            zoom_x: self.zoom_x,
            pan_y: self.pan_y,
            zoom_y: self.zoom_y,
            pan_z: self.pan_z,
            zoom_z: self.zoom_z,
            column_x: self.column_x,
            column_y: self.column_y,
            column_z: self.column_z,
            commands: self.commands@,
        }
    }
}

/// The frames that a vector holds.
pub open spec fn frames_of(frames: Seq<Frame>) -> Seq<FrameView> {
    Seq::new(frames.len(), |i: int| frames[i]@)
}

impl Renderer {
    /// What is drawn on top of the points: the help text where it is shown, the three
    /// axes, and the number of points at the upper right corner.
    pub open spec fn overlay(self) -> Seq<DrawCommand> {
        let lx = self.dimx.render_length as int;
        let ly = self.dimy.render_length as int;
        let help = if self.show_help {
            seq![
                DrawCommand::Text {
                    x: (lx / 2) as i64,
                    y: (ly / 2) as i64,
                    rotation: 0,
                    hor: AnchorHor::Center,
                    vert: AnchorVert::Middle,
                    label: Label::Help,
                },
            ]
        } else {
            Seq::empty()
        };
        help + axis_commands(
            Axis::X,
            self.dimx.plan(TICK_DISTANCE as int),
            self.dimx.column,
            lx,
            ly,
        ) + axis_commands(Axis::Y, self.dimy.plan(TICK_DISTANCE as int), self.dimy.column, lx, ly)
            + axis_commands(
            Axis::Z,
            self.dimz.plan(TICK_DISTANCE as int),
            self.dimz.column,
            lx,
            ly,
        ) + seq![
            DrawCommand::Text {
                x: (lx - INFO_MARGIN) as i64,
                y: INFO_MARGIN,
                rotation: 0,
                hor: AnchorHor::Right,
                vert: AnchorVert::Top,
                label: Label::Objects(self.table@.rows() as usize),
            },
        ]
    }

    /// The frame of a state.
    pub open spec fn frame_spec(self) -> FrameView {
        FrameView {
            width: self.dimx.render_length,
            height: self.dimy.render_length,
            count: self.table@.rows() as usize,
            point_scale: self.point_scale,
            alpha_scale: self.alpha_scale,
            projection: self.projection,
            pan_x: self.dimx.d,
            zoom_x: self.dimx.s,
            pan_y: self.dimy.d,
            zoom_y: self.dimy.s,
            pan_z: self.dimz_delta,
            zoom_z: self.dimz_scale,
            column_x: self.dimx.column,
            column_y: self.dimy.column,
            column_z: self.dimz.column,
            commands: self.overlay(),
        }
    }

    /// The state after a batch of events, taken in their order.
    pub open spec fn after_events(self, events: Seq<WindowEvent>) -> Renderer
        decreases events.len(),
    {
        if events.len() == 0 {
            self
        } else {
            self.after_events(events.drop_last()).handle_spec(events.last())
        }
    }

    /// The state with nothing left to draw.
    pub open spec fn drawn(self) -> Renderer {
        Renderer { changed: false, ..self }
    }

    /// Adds to `commands` the first axis: its two lines, the name of its column
    /// above and below the plot, and a label and a tick on either line for each marker.
    pub fn draw_x_axis(&self, commands: &mut Vec<DrawCommand>)
        requires
            self.wf(),
        ensures
            final(commands)@ == old(commands)@ + axis_commands(
                Axis::X,
                self.dimx.plan(TICK_DISTANCE as int),
                self.dimx.column,
                self.dimx.render_length as int,
                self.dimy.render_length as int,
            ),
    {
        let margin: i64 = MARGIN as i64;
        let width: i64 = self.dimx.render_length as i64;
        let height: i64 = self.dimy.render_length as i64;
        let ghost before = commands@;
        commands.push(
            DrawCommand::Line { x0: margin, y0: margin, x1: width - margin, y1: margin, stroke: Stroke::Axis },
        );
        commands.push(
            DrawCommand::Line {
                x0: margin,
                y0: height - margin,
                x1: width - margin,
                y1: height - margin,
                stroke: Stroke::Axis,
            },
        );
        commands.push(
            DrawCommand::Text {
                x: width / 2,
                y: LABEL_MARGIN,
                rotation: 0,
                hor: AnchorHor::Center,
                vert: AnchorVert::Top,
                label: Label::Column(self.dimx.column),
            },
        );
        commands.push(
            DrawCommand::Text {
                x: width / 2,
                y: height - LABEL_MARGIN,
                rotation: 0,
                hor: AnchorHor::Center,
                vert: AnchorVert::Bottom,
                label: Label::Column(self.dimx.column),
            },
        );
        assert(commands@ =~= before + axis_frame(
            Axis::X,
            self.dimx.column,
            self.dimx.render_length as int,
            self.dimy.render_length as int,
        ));
        let plan: TickPlan = self.dimx.calc_axis_markers(TICK_DISTANCE);
        draw_markers(Axis::X, &plan, self.dimx.render_length, self.dimy.render_length, commands);
    }

    /// Adds to `commands` the second axis: its two lines, the name of its column left
    /// and right of the plot, and a label and a tick on either line for each marker.
    pub fn draw_y_axis(&self, commands: &mut Vec<DrawCommand>)
        requires
            self.wf(),
        ensures
            final(commands)@ == old(commands)@ + axis_commands(
                Axis::Y,
                self.dimy.plan(TICK_DISTANCE as int),
                self.dimy.column,
                self.dimx.render_length as int,
                self.dimy.render_length as int,
            ),
    {
        let margin: i64 = MARGIN as i64;
        let width: i64 = self.dimx.render_length as i64;
        let height: i64 = self.dimy.render_length as i64;
        let ghost before = commands@;
        commands.push(
            DrawCommand::Line { x0: margin, y0: margin, x1: margin, y1: height - margin, stroke: Stroke::Axis },
        );
        commands.push(
            DrawCommand::Line {
                x0: width - margin,
                y0: margin,
                x1: width - margin,
                y1: height - margin,
                stroke: Stroke::Axis,
            },
        );
        commands.push(
            DrawCommand::Text {
                x: LABEL_MARGIN,
                y: height / 2,
                rotation: 270,
                hor: AnchorHor::Center,
                vert: AnchorVert::Top,
                label: Label::Column(self.dimy.column),
            },
        );
        commands.push(
            DrawCommand::Text {
                x: width - LABEL_MARGIN,
                y: height / 2,
                rotation: 90,
                hor: AnchorHor::Center,
                vert: AnchorVert::Top,
                label: Label::Column(self.dimy.column),
            },
        );
        assert(commands@ =~= before + axis_frame(
            Axis::Y,
            self.dimy.column,
            self.dimx.render_length as int,
            self.dimy.render_length as int,
        ));
        let plan: TickPlan = self.dimy.calc_axis_markers(TICK_DISTANCE);
        draw_markers(Axis::Y, &plan, self.dimx.render_length, self.dimy.render_length, commands);
    }

    /// Adds to `commands` the depth axis: its line below the plot, the name of its
    /// column at the lower left corner, and a label and a tick for each marker.
    pub fn draw_z_axis(&self, commands: &mut Vec<DrawCommand>)
        requires
            self.wf(),
        ensures
            final(commands)@ == old(commands)@ + axis_commands(
                Axis::Z,
                self.dimz.plan(TICK_DISTANCE as int),
                self.dimz.column,
                self.dimx.render_length as int,
                self.dimy.render_length as int,
            ),
    {
        let margin: i64 = MARGIN as i64;
        let width: i64 = self.dimz.render_length as i64;
        let height: i64 = self.dimy.render_length as i64;
        let ghost before = commands@;
        commands.push(
            DrawCommand::Line {
                x0: margin,
                y0: height - DEPTH_MARGIN,
                x1: width - margin,
                y1: height - DEPTH_MARGIN,
                stroke: Stroke::Axis,
            },
        );
        commands.push(
            DrawCommand::Text {
                x: INFO_MARGIN,
                y: height - INFO_MARGIN,
                rotation: 0,
                hor: AnchorHor::Left,
                vert: AnchorVert::Bottom,
                label: Label::Depth(self.dimz.column),
            },
        );
        assert(commands@ =~= before + axis_frame(
            Axis::Z,
            self.dimz.column,
            self.dimx.render_length as int,
            self.dimy.render_length as int,
        ));
        let plan: TickPlan = self.dimz.calc_axis_markers(TICK_DISTANCE);
        draw_markers(Axis::Z, &plan, self.dimz.render_length, self.dimy.render_length, commands);
    }

    /// The frame of the state as it is.
    pub fn redraw(&self) -> (frame: Frame)
        requires
            self.wf(),
        ensures
            frame@ == self.frame_spec(),
    {
        let width: i64 = self.dimx.render_length as i64;
        let height: i64 = self.dimy.render_length as i64;
        let count: usize = self.table.len();
        let mut commands: Vec<DrawCommand> = Vec::new();
        if self.show_help {
            commands.push(
                DrawCommand::Text {
                    x: width / 2,
                    y: height / 2,
                    rotation: 0,
                    hor: AnchorHor::Center,
                    vert: AnchorVert::Middle,
                    label: Label::Help,
                },
            );
        }
        self.draw_x_axis(&mut commands);
        self.draw_y_axis(&mut commands);
        self.draw_z_axis(&mut commands);
        commands.push(
            DrawCommand::Text {
                x: width - INFO_MARGIN,
                y: INFO_MARGIN,
                rotation: 0,
                hor: AnchorHor::Right,
                vert: AnchorVert::Top,
                label: Label::Objects(count),
            },
        );
        assert(commands@ =~= self.overlay());
        Frame {
            width: self.dimx.render_length,
            height: self.dimy.render_length,
            count,
            point_scale: self.point_scale,
            alpha_scale: self.alpha_scale,
            projection: self.projection,
            pan_x: self.dimx.d,
            zoom_x: self.dimx.s,
            pan_y: self.dimy.d,
            zoom_y: self.dimy.s,
            pan_z: self.dimz_delta,
            zoom_z: self.dimz_scale,
            column_x: self.dimx.column,
            column_y: self.dimy.column,
            column_z: self.dimz.column,
            commands,
        }
    }

    /// One turn of the loop: takes the events that came in, in their order, and
    /// draws a frame if anything changed. Without a change it draws nothing, and the
    /// caller may rest before the next turn.
    pub fn renderloop(&mut self, events: &Vec<WindowEvent>) -> (frame: Option<Frame>)
        requires
            old(self).wf(),
        ensures
            final(self).wf(),
            ({
                let state = old(self).after_events(events@);
                if state.changed {
                    &&& *final(self) == state.drawn()
                    &&& frame is Some
                    &&& frame->0@ == state.frame_spec()
                } else {
                    &&& *final(self) == state
                    &&& frame is None
                }
            }),
    {
        let mut i: usize = 0;
        assert(events@.take(0) =~= Seq::<WindowEvent>::empty());
        while i < events.len()
            invariant
                i <= events.len(),
                self.wf(),
                *self == old(self).after_events(events@.take(i as int)),
            decreases events.len() - i,
        {
            assert(events@.take(i + 1).drop_last() =~= events@.take(i as int));
            assert(events@.take(i + 1).last() == events@[i as int]);
            self.handle_event(events[i]);
            i = i + 1;
        }
        assert(events@.take(events.len() as int) =~= events@);
        if self.changed {
            let frame: Frame = self.redraw();
            self.changed = false;
            Some(frame)
        } else {
            None
        }
    }
}

/// The frames that a plot draws for the batches of events that come in, from the
/// state `state` on: one for each batch after which something has changed, until the
/// plot is asked to close or the batches end.
pub open spec fn render_spec(state: Renderer, batches: Seq<Seq<WindowEvent>>) -> Seq<FrameView>
    decreases batches.len(),
{
    if batches.len() == 0 || state.should_close {
        Seq::empty()
    } else {
        let next = state.after_events(batches[0]);
        if next.changed {
            seq![next.frame_spec()] + render_spec(next.drawn(), batches.drop_first())
        } else {
            render_spec(next, batches.drop_first())
        }
    }
}

/// The batches of events that a vector holds.
pub open spec fn batches_of(batches: Seq<Vec<WindowEvent>>) -> Seq<Seq<WindowEvent>> {
    Seq::new(batches.len(), |i: int| batches[i]@)
}

/// Plots a table with the three axes on the columns of the given names: takes the
/// batches of events as they come in and gives the frames that are drawn for them.
pub fn render(
    table: Table,
    column_x: &String,
    column_y: &String,
    column_z: &String,
    batches: &Vec<Vec<WindowEvent>>,
) -> (frames: Vec<Frame>)
    requires
        table.wf(),
        table@.columns.contains(column_x@),
        table@.columns.contains(column_y@),
        table@.columns.contains(column_z@),
    ensures
        frames_of(frames@) == render_spec(
            Renderer::start_spec(
                table,
                table@.columns.index_of(column_x@) as usize,
                table@.columns.index_of(column_y@) as usize,
                table@.columns.index_of(column_z@) as usize,
            ),
            batches_of(batches@),
        ),
{
    let ghost start = Renderer::start_spec(
        table,
        table@.columns.index_of(column_x@) as usize,
        table@.columns.index_of(column_y@) as usize,
        table@.columns.index_of(column_z@) as usize,
    );
    let mut renderer: Renderer = Renderer::new(table, column_x, column_y, column_z);
    proof {
        table@.lemma_place(column_x@, renderer.dimx.column as int);
        table@.lemma_place(column_y@, renderer.dimy.column as int);
        table@.lemma_place(column_z@, renderer.dimz.column as int);
        assert(renderer == start);
        assert(batches_of(batches@).skip(0) =~= batches_of(batches@));
    }
    let mut frames: Vec<Frame> = Vec::new();
    let mut i: usize = 0;
    while i < batches.len() && !renderer.should_close
        invariant
            i <= batches.len(),
            renderer.wf(),
            frames_of(frames@) + render_spec(renderer, batches_of(batches@).skip(i as int))
                == render_spec(start, batches_of(batches@)),
        decreases batches.len() - i,
    {
        let ghost rest = batches_of(batches@).skip(i as int);
        let ghost before = frames_of(frames@);
        proof {
            assert(rest[0] == batches@[i as int]@);
            assert(rest.drop_first() =~= batches_of(batches@).skip(i + 1));
        }
        match renderer.renderloop(&batches[i]) {
            Some(frame) => {
                let ghost shown = frame@;
                frames.push(frame);
                proof {
                    assert(frames_of(frames@) =~= before + seq![shown]);
                    assert(before + seq![shown] + render_spec(
                        renderer,
                        batches_of(batches@).skip(i + 1),
                    ) =~= before + (seq![shown] + render_spec(
                        renderer,
                        batches_of(batches@).skip(i + 1),
                    )));
                }
            },
            None => {},
        }
        i = i + 1;
    }
    proof {
        assert(frames_of(frames@) + Seq::<FrameView>::empty() =~= frames_of(frames@));
        if i == batches.len() {
            assert(batches_of(batches@).skip(i as int).len() == 0);
        }
    }
    frames
}

} // verus!
