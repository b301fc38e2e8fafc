//! The engine of the plot: the state that input events change, and the step that
//! each event makes.

use vstd::prelude::*;
use crate::arith::{div_floor_exec, lemma_div_bounded, UNIT};
use crate::axis::{scale, scale_spec, shift, shift_spec, Dimension, ZOOM_LIMIT};
use crate::data::Table;
use crate::projection::{calc_projection, projection_spec, Projection};

verus! {

/// The width of the window when it opens, in pixels.
pub const WIDTH: i32 = 800;

/// The height of the window when it opens, in pixels.
pub const HEIGHT: i32 = 600;

/// The size of a point when the plot opens, in millionths of a pixel.
pub const POINT_SCALE: i64 = 4_000_000;

/// The step by which a key changes the opacity, in millionths.
pub const ALPHA_STEP: i64 = 20_000;

/// What a move of the pointer does.
#[derive(Clone, Copy, Debug, PartialEq, Eq, Structural)]
pub enum ActiveTransform {
    /// The primary button is down: the pointer drags the view.
    TransformMove,
    /// The secondary button is down: the pointer zooms the view.
    TransformScale,
    /// No button is down.
    TransformNone,
}

/// A button of the pointer.
#[derive(Clone, Copy, Debug, PartialEq, Eq, Structural)]
pub enum MouseButton {
    Button1,
    Button2,
    Other,
}

/// What happened to a button or a key.
#[derive(Clone, Copy, Debug, PartialEq, Eq, Structural)]
pub enum Action {
    Press,
    Release,
    Repeat,
}

/// The keys that the plot knows.
#[derive(Clone, Copy, Debug, PartialEq, Eq, Structural)]
pub enum Key {
    Escape,
    W,
    Q,
    A,
    S,
    H,
    R,
    Right,
    Left,
    Down,
    Up,
    PageDown,
    PageUp,
    Other,
}

/// An input event. Positions and sizes are in pixels; of a scroll only the
/// direction counts.
#[derive(Clone, Copy, Debug, PartialEq, Eq, Structural)]
pub enum WindowEvent {
    Size(i32, i32),
    CursorPos(i32, i32),
    MouseButton(MouseButton, Action),
    Scroll(i32, i32),
    Key(Key, Action),
    Other,
}

/// The column after `column` in a table of `count` columns; the first after the last.
pub open spec fn next_column_spec(column: usize, count: nat) -> usize {
    if column + 1 < count {
        (column + 1) as usize
    } else {
        0
    }
}

/// The column before `column` in a table of `count` columns; the last before the first.
pub open spec fn previous_column_spec(column: usize, count: nat) -> usize {
    if 0 < column < count {
        (column - 1) as usize
    } else {
        (count - 1) as usize
    }
}

/// The column after `column`, the first after the last.
pub fn next_column(column: usize, count: usize) -> (next: usize)
    requires
        count > 0,
    ensures
        next == next_column_spec(column, count as nat),
        next < count,
{
    if column < count - 1 {
        column + 1
    } else {
        0
    }
}

/// The column before `column`, the last before the first.
pub fn previous_column(column: usize, count: usize) -> (previous: usize)
    requires
        count > 0,
    ensures
        previous == previous_column_spec(column, count as nat),
        previous < count,
{
    if 0 < column && column < count {
        column - 1
    } else {
        count - 1
    }
}

/// Going on from the last column gives the first, going back from the first gives
/// the last, and within the table each of the two steps undoes the other.
pub proof fn lemma_column_cycle(column: usize, count: nat)
    requires
        0 < count <= usize::MAX,
        column < count,
    ensures
        next_column_spec((count - 1) as usize, count) == 0,
        previous_column_spec(0, count) == count - 1,
        previous_column_spec(next_column_spec(column, count), count) == column,
        next_column_spec(previous_column_spec(column, count), count) == column,
{
}

/// The size of a point after one step up: half as large again, unless that leaves
/// the machine's numbers.
pub open spec fn grow_spec(point_scale: i64) -> i64 {
    if (point_scale * 3) / 2 <= i64::MAX {
        ((point_scale * 3) / 2) as i64
    } else {
        point_scale
    }
}

/// The size of a point after one step down: two thirds, and never below one pixel.
pub open spec fn shrink_spec(point_scale: i64) -> i64 {
    if (point_scale * 2) / 3 < UNIT {
        UNIT
    } else {
        ((point_scale * 2) / 3) as i64
    }
}

/// The opacity after one step down, never below 0.
pub open spec fn fade_spec(alpha_scale: i64) -> i64 {
    if alpha_scale - ALPHA_STEP < 0 {
        0
    } else {
        (alpha_scale - ALPHA_STEP) as i64
    }
}

/// The opacity after one step up, never above 1.
pub open spec fn unfade_spec(alpha_scale: i64) -> i64 {
    if alpha_scale + ALPHA_STEP > UNIT {
        UNIT
    } else {
        (alpha_scale + ALPHA_STEP) as i64
    }
}

/// The state of the plot.
///
/// `dimz_delta` and `dimz_scale` are the pan and zoom that the depth of the points is
/// drawn with; the depth axis keeps a pan and zoom of its own for its ticks.
/// `point_scale` and `alpha_scale` count millionths.
pub struct Renderer {
    pub table: Table,
    pub dimx: Dimension,
    pub dimy: Dimension,
    pub dimz: Dimension,
    pub dimz_delta: i64,
    pub dimz_scale: i64,
    pub active_transform: ActiveTransform,
    pub mouse_x: i32,
    pub mouse_y: i32,
    pub point_scale: i64,
    pub alpha_scale: i64,
    pub projection: Projection,
    pub show_help: bool,
    pub changed: bool,
    pub should_close: bool,
}

impl Renderer {
    /// The table and the three axes are well formed, each axis shows a column of the
    /// table, the depth axis is as long as the first, and the projection is that of
    /// the three ranges.
    pub open spec fn wf(&self) -> bool {
        &&& self.table.wf()
        &&& self.dimx.wf()
        &&& self.dimy.wf()
        &&& self.dimz.wf()
        &&& self.dimx.column < self.table@.columns.len()
        &&& self.dimy.column < self.table@.columns.len()
        &&& self.dimz.column < self.table@.columns.len()
        &&& self.dimz.render_length == self.dimx.render_length
        &&& 1 <= self.dimz_scale <= ZOOM_LIMIT
        &&& UNIT <= self.point_scale
        &&& 0 <= self.alpha_scale <= UNIT
        &&& self.projection == projection_spec(self.dimx.range, self.dimy.range, self.dimz.range)
    }

    /// The number of columns of the table.
    pub open spec fn columns(self) -> nat {
        self.table@.columns.len()
    }

    /// The state with the projection of its three ranges.
    pub open spec fn projected(self) -> Renderer {
        Renderer {
            projection: projection_spec(self.dimx.range, self.dimy.range, self.dimz.range),
            ..self
        }
    }

    /// The state after the window took a new size. A size without pixels is ignored.
    pub open spec fn resized(self, width: i32, height: i32) -> Renderer {
        if width > 0 && height > 0 {
            Renderer {
                dimx: Dimension { render_length: width, ..self.dimx },
                dimy: Dimension { render_length: height, ..self.dimy },
                dimz: Dimension { render_length: width, ..self.dimz },
                ..self
            }
        } else {
            self
        }
    }

    /// The state after the pointer moved to `x`, `y`: a drag pans the first two axes
    /// by the pixels moved, the second one upwards; a zoom scales each by the ratio of
    /// the new to the old offset from the middle of the window.
    pub open spec fn moved(self, x: i32, y: i32) -> Renderer {
        let r = match self.active_transform {
            ActiveTransform::TransformMove => Renderer {
                dimx: self.dimx.pan_spec(x - self.mouse_x),
                dimy: self.dimy.pan_spec(self.mouse_y - y),
                ..self
            },
            ActiveTransform::TransformScale => Renderer {
                dimx: self.dimx.zoom_spec(
                    2 * self.mouse_x - self.dimx.render_length,
                    2 * x - self.dimx.render_length,
                ),
                dimy: self.dimy.zoom_spec(
                    2 * self.mouse_y - self.dimy.render_length,
                    2 * y - self.dimy.render_length,
                ),
                ..self
            },
            ActiveTransform::TransformNone => self,
        };
        Renderer { mouse_x: x, mouse_y: y, ..r }
    }

    /// What a move of the pointer does after a button went down or up.
    pub open spec fn transition(
        active: ActiveTransform,
        button: MouseButton,
        action: Action,
    ) -> ActiveTransform {
        match (button, action, active) {
            (MouseButton::Button1, Action::Press, ActiveTransform::TransformNone) => ActiveTransform::TransformMove,
            (MouseButton::Button1, Action::Release, ActiveTransform::TransformMove) => ActiveTransform::TransformNone,
            (MouseButton::Button2, Action::Press, ActiveTransform::TransformNone) => ActiveTransform::TransformScale,
            (MouseButton::Button2, Action::Release, ActiveTransform::TransformScale) => ActiveTransform::TransformNone,
            _ => active,
        }
    }

    /// The state after the wheel turned sideways: the depth axis and the depth of the
    /// points move by a twentieth of what is shown, in opposite senses.
    pub open spec fn scrolled_sideways(self, dx: i32) -> Renderer {
        let by = (self.dimz.width() * self.dimz_scale) / (20 * UNIT);
        Renderer {
            dimz: self.dimz.scroll_spec(dx as int),
            dimz_delta: if dx > 0 {
                shift_spec(self.dimz_delta, by)
            } else if dx < 0 {
                shift_spec(self.dimz_delta, -by)
            } else {
                self.dimz_delta
            },
            ..self
        }
    }

    /// The state after the wheel turned: the depth axis and the depth of the points
    /// zoom by a twentieth, in for a turn above 0.
    pub open spec fn scrolled_along(self, dy: i32) -> Renderer {
        if dy > 0 {
            let r = scale_spec(self.dimz_delta, self.dimz_scale, 21, 20);
            Renderer { dimz: self.dimz.scale_spec(21, 20), dimz_delta: r.0, dimz_scale: r.1, ..self }
        } else if dy < 0 {
            let r = scale_spec(self.dimz_delta, self.dimz_scale, 20, 21);
            Renderer { dimz: self.dimz.scale_spec(20, 21), dimz_delta: r.0, dimz_scale: r.1, ..self }
        } else {
            self
        }
    }

    /// The state with the first axis bound to another column.
    pub open spec fn rebound_x(self, column: usize) -> Renderer {
        Renderer {
            dimx: Dimension::bind_spec(self.dimx.render_length, self.table@, column),
            ..self
        }.projected()
    }

    /// The state with the second axis bound to another column.
    pub open spec fn rebound_y(self, column: usize) -> Renderer {
        Renderer {
            dimy: Dimension::bind_spec(self.dimy.render_length, self.table@, column),
            ..self
        }.projected()
    }

    /// The state with the depth axis bound to another column, and the depth of the
    /// points back at the fit.
    pub open spec fn rebound_z(self, column: usize) -> Renderer {
        Renderer {
            dimz: Dimension::bind_spec(self.dimz.render_length, self.table@, column),
            dimz_delta: 0,
            dimz_scale: UNIT,
            ..self
        }.projected()
    }

    /// The state after a key went down.
    pub open spec fn typed(self, key: Key) -> Renderer {
        match key {
            Key::Escape => Renderer { should_close: true, ..self },
            Key::W => Renderer { point_scale: grow_spec(self.point_scale), ..self },
            Key::Q => Renderer { point_scale: shrink_spec(self.point_scale), ..self },
            Key::A => Renderer { alpha_scale: fade_spec(self.alpha_scale), ..self },
            Key::S => Renderer { alpha_scale: unfade_spec(self.alpha_scale), ..self },
            Key::H => Renderer { show_help: !self.show_help, ..self },
            Key::R => Renderer {
                point_scale: POINT_SCALE,
                alpha_scale: UNIT,
                dimx: self.dimx.reset_spec(),
                dimy: self.dimy.reset_spec(),
                dimz: self.dimz.reset_spec(),
                dimz_delta: 0,
                dimz_scale: UNIT,
                ..self
            },
            Key::Right => self.rebound_x(next_column_spec(self.dimx.column, self.columns())),
            Key::Left => self.rebound_x(previous_column_spec(self.dimx.column, self.columns())),
            Key::Down => self.rebound_y(next_column_spec(self.dimy.column, self.columns())),
            Key::Up => self.rebound_y(previous_column_spec(self.dimy.column, self.columns())),
            Key::PageDown => self.rebound_z(next_column_spec(self.dimz.column, self.columns())),
            Key::PageUp => self.rebound_z(
                previous_column_spec(self.dimz.column, self.columns()),
            ),
            Key::Other => self,
        }
    }

    /// The state after an event. Every event marks the state as changed.
    pub open spec fn handle_spec(self, event: WindowEvent) -> Renderer {
        let r = match event {
            WindowEvent::Size(width, height) => self.resized(width, height),
            WindowEvent::CursorPos(x, y) => self.moved(x, y),
            WindowEvent::MouseButton(button, action) => Renderer {
                active_transform: Renderer::transition(self.active_transform, button, action),
                ..self
            },
            WindowEvent::Scroll(dx, dy) => self.scrolled_sideways(dx).scrolled_along(dy),
            WindowEvent::Key(key, Action::Press) => self.typed(key),
            _ => self,
        };
        Renderer { changed: true, ..r }
    }

    /// The state in which the plot opens: the three axes bound to three columns of
    /// the table in a window of 800 by 600 pixels, everything at the fit.
    pub open spec fn start_spec(table: Table, x: usize, y: usize, z: usize) -> Renderer {
        let dimx = Dimension::bind_spec(WIDTH, table@, x);
        let dimy = Dimension::bind_spec(HEIGHT, table@, y);
        let dimz = Dimension::bind_spec(WIDTH, table@, z);
        Renderer {
            table,
            dimx,
            dimy,
            dimz,
            dimz_delta: 0,
            dimz_scale: UNIT,
            active_transform: ActiveTransform::TransformNone,
            mouse_x: 0,
            mouse_y: 0,
            point_scale: POINT_SCALE,
            alpha_scale: UNIT,
            projection: projection_spec(dimx.range, dimy.range, dimz.range),
            show_help: false,
            changed: true,
            should_close: false,
        }
    }

    /// Opens the plot of a table with the three axes on the columns of the given names.
    pub fn new(table: Table, column_x: &String, column_y: &String, column_z: &String) -> (r:
        Renderer)
        requires
            table.wf(),
            table@.columns.contains(column_x@),
            table@.columns.contains(column_y@),
            table@.columns.contains(column_z@),
        ensures
            r.wf(),
            r == Renderer::start_spec(table, r.dimx.column, r.dimy.column, r.dimz.column),
            table@.columns[r.dimx.column as int] == column_x@,
            table@.columns[r.dimy.column as int] == column_y@,
            table@.columns[r.dimz.column as int] == column_z@,
    {
        let dimx: Dimension = Dimension::new(WIDTH, &table, column_x);
        let dimy: Dimension = Dimension::new(HEIGHT, &table, column_y);
        let dimz: Dimension = Dimension::new(WIDTH, &table, column_z);
        let projection: Projection = calc_projection(&dimx, &dimy, &dimz);
        Renderer {
            table,
            dimx,
            dimy,
            dimz,
            dimz_delta: 0,
            dimz_scale: UNIT,
            active_transform: ActiveTransform::TransformNone,
            mouse_x: 0,
            mouse_y: 0,
            point_scale: POINT_SCALE,
            alpha_scale: UNIT,
            projection,
            show_help: false,
            changed: true,
            should_close: false,
        }
    }

    /// Takes one input event.
    pub fn handle_event(&mut self, event: WindowEvent)
        requires
            old(self).wf(),
        ensures
            *final(self) == old(self).handle_spec(event),
            final(self).wf(),
    {
        match event {
            WindowEvent::Size(width, height) => {
                if width > 0 && height > 0 {
                    self.dimx.render_length = width;
                    self.dimy.render_length = height;
                    self.dimz.render_length = width;
                }
            },
            WindowEvent::CursorPos(x, y) => {
                match self.active_transform {
                    ActiveTransform::TransformMove => {
                        self.dimx.pan_by(x as i64 - self.mouse_x as i64);
                        self.dimy.pan_by(self.mouse_y as i64 - y as i64);
                    },
                    ActiveTransform::TransformScale => {
                        let width: i64 = self.dimx.render_length as i64;
                        let height: i64 = self.dimy.render_length as i64;
                        self.dimx.zoom_around(2 * (self.mouse_x as i64) - width, 2 * (x as i64) - width);
                        self.dimy.zoom_around(
                            2 * (self.mouse_y as i64) - height,
                            2 * (y as i64) - height,
                        );
                    },
                    ActiveTransform::TransformNone => {},
                }
                self.mouse_x = x;
                self.mouse_y = y;
            },
            WindowEvent::MouseButton(button, action) => {
                match (button, action, self.active_transform) {
                    (MouseButton::Button1, Action::Press, ActiveTransform::TransformNone) => {
                        self.active_transform = ActiveTransform::TransformMove;
                    },
                    (MouseButton::Button1, Action::Release, ActiveTransform::TransformMove) => {
                        self.active_transform = ActiveTransform::TransformNone;
                    },
                    (MouseButton::Button2, Action::Press, ActiveTransform::TransformNone) => {
                        self.active_transform = ActiveTransform::TransformScale;
                    },
                    (MouseButton::Button2, Action::Release, ActiveTransform::TransformScale) => {
                        self.active_transform = ActiveTransform::TransformNone;
                    },
                    _ => {},
                }
            },
            WindowEvent::Scroll(dx, dy) => {
                self.scroll_sideways(dx);
                self.scroll_along(dy);
            },
            WindowEvent::Key(key, Action::Press) => {
                self.key_pressed(key);
            },
            _ => {},
        }
        self.changed = true;
    }

    /// Takes a turn of the wheel sideways.
    fn scroll_sideways(&mut self, dx: i32)
        requires
            old(self).wf(),
        ensures
            *final(self) == old(self).scrolled_sideways(dx),
            final(self).wf(),
    {
        let width: i128 = self.dimz.range_width();
        assert(0 <= width * self.dimz_scale <= 0x1_0000_0000_0000_0000_0000_0000_0000) by (nonlinear_arith)
            requires
                0 <= width <= 0x1_0000_0000_0000_0000,
                1 <= self.dimz_scale <= 1_000_000_000_000,
        ;
        assert(20 * UNIT == 20_000_000);
        let by: i128 = div_floor_exec(width * (self.dimz_scale as i128), 20_000_000);
        proof {
            lemma_div_bounded(
                width * self.dimz_scale,
                20_000_000,
                0x1_0000_0000_0000_0000_0000_0000_0000,
            );
        }
        self.dimz.scroll_by(dx);
        if dx > 0 {
            self.dimz_delta = shift(self.dimz_delta, by);
        } else if dx < 0 {
            self.dimz_delta = shift(self.dimz_delta, -by);
        }
    }

    /// Takes a turn of the wheel.
    fn scroll_along(&mut self, dy: i32)
        requires
            old(self).wf(),
        ensures
            *final(self) == old(self).scrolled_along(dy),
            final(self).wf(),
    {
        if dy > 0 {
            self.dimz.scale_by(21, 20);
            let r: (i64, i64) = scale(self.dimz_delta, self.dimz_scale, 21, 20);
            self.dimz_delta = r.0;
            self.dimz_scale = r.1;
        } else if dy < 0 {
            self.dimz.scale_by(20, 21);
            let r: (i64, i64) = scale(self.dimz_delta, self.dimz_scale, 20, 21);
            self.dimz_delta = r.0;
            self.dimz_scale = r.1;
        }
    }

    /// Takes a key that went down.
    fn key_pressed(&mut self, key: Key)
        requires
            old(self).wf(),
        ensures
            *final(self) == old(self).typed(key),
            final(self).wf(),
    {
        let count: usize = self.table.columns().len();
        match key {
            Key::Escape => {
                self.should_close = true;
            },
            Key::W => {
                let grown: i128 = (self.point_scale as i128 * 3) / 2;
                if grown <= i64::MAX as i128 {
                    self.point_scale = grown as i64;
                }
            },
            Key::Q => {
                let shrunk: i64 = ((self.point_scale as i128 * 2) / 3) as i64;
                self.point_scale = if shrunk < UNIT {
                    UNIT
                } else {
                    shrunk
                };
            },
            Key::A => {
                self.alpha_scale = if self.alpha_scale - ALPHA_STEP < 0 {
                    0
                } else {
                    self.alpha_scale - ALPHA_STEP
                };
            },
            Key::S => {
                self.alpha_scale = if self.alpha_scale + ALPHA_STEP > UNIT {
                    UNIT
                } else {
                    self.alpha_scale + ALPHA_STEP
                };
            },
            Key::H => {
                self.show_help = !self.show_help;
            },
            Key::R => {
                self.point_scale = POINT_SCALE;
                self.alpha_scale = UNIT;
                self.dimx.reset();
                self.dimy.reset();
                self.dimz.reset();
                self.dimz_delta = 0;
                self.dimz_scale = UNIT;
            },
            Key::Right => {
                self.dimx = Dimension::bind(
                    self.dimx.render_length,
                    &self.table,
                    next_column(self.dimx.column, count),
                );
                self.projection = calc_projection(&self.dimx, &self.dimy, &self.dimz);
            },
            Key::Left => {
                self.dimx = Dimension::bind(
                    self.dimx.render_length,
                    &self.table,
                    previous_column(self.dimx.column, count),
                );
                self.projection = calc_projection(&self.dimx, &self.dimy, &self.dimz);
            },
            Key::Down => {
                self.dimy = Dimension::bind(
                    self.dimy.render_length,
                    &self.table,
                    next_column(self.dimy.column, count),
                );
                self.projection = calc_projection(&self.dimx, &self.dimy, &self.dimz);
            },
            Key::Up => {
                self.dimy = Dimension::bind(
                    self.dimy.render_length,
                    &self.table,
                    previous_column(self.dimy.column, count),
                );
                self.projection = calc_projection(&self.dimx, &self.dimy, &self.dimz);
            },
            Key::PageDown => {
                self.dimz = Dimension::bind(
                    self.dimz.render_length,
                    &self.table,
                    next_column(self.dimz.column, count),
                );
                self.dimz_delta = 0;
                self.dimz_scale = UNIT;
                self.projection = calc_projection(&self.dimx, &self.dimy, &self.dimz);
            },
            Key::PageUp => {
                self.dimz = Dimension::bind(
                    self.dimz.render_length,
                    &self.table,
                    previous_column(self.dimz.column, count),
                );
                self.dimz_delta = 0;
                self.dimz_scale = UNIT;
                self.projection = calc_projection(&self.dimx, &self.dimy, &self.dimz);
            },
            Key::Other => {},
        }
    }
}

} // verus!
