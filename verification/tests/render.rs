use fluxcore::axis::Dimension;
use fluxcore::data::Table;
use fluxcore::frame::{render, DrawCommand, Label, Stroke};
use fluxcore::render::{
    next_column, previous_column, Action, ActiveTransform, Key, MouseButton, Renderer,
    WindowEvent,
};
use fluxcore::textdrawer::{AnchorHor, AnchorVert};

const M: i64 = 1_000_000;

fn s(v: &str) -> String {
    v.to_string()
}

fn table() -> Table {
    let mut t = Table::new(s("demo"), vec![s("x"), s("y"), s("z")]);
    for i in 0..5i64 {
        t.push(&vec![Some((i + 1) * M), Some(i * 10 * M), Some(7 * M)]);
    }
    t
}

fn renderer() -> Renderer {
    Renderer::new(table(), &s("x"), &s("y"), &s("z"))
}

fn press(key: Key) -> WindowEvent {
    WindowEvent::Key(key, Action::Press)
}

#[test]
fn the_plot_opens_at_the_fit() {
    let r = renderer();
    assert_eq!(r.dimx, Dimension { render_length: 800, d: 0, s: M, range: Some((M, 5 * M)), column: 0 });
    assert_eq!(r.dimy, Dimension { render_length: 600, d: 0, s: M, range: Some((0, 40 * M)), column: 1 });
    assert_eq!(r.dimz, Dimension { render_length: 800, d: 0, s: M, range: Some((7 * M, 7 * M)), column: 2 });
    assert_eq!((r.dimz_delta, r.dimz_scale), (0, M));
    assert_eq!(r.active_transform, ActiveTransform::TransformNone);
    assert_eq!((r.mouse_x, r.mouse_y), (0, 0));
    assert_eq!((r.point_scale, r.alpha_scale), (4 * M, M));
    assert!(!r.show_help && r.changed && !r.should_close);
    assert_eq!(r.projection.z.span, 2 * M as i128);
    assert_eq!(r.projection.x.span, 4 * M as i128);
}

#[test]
fn buttons_switch_between_idle_panning_and_zooming() {
    let mut r = renderer();
    let b = |r: &mut Renderer, button, action| {
        r.handle_event(WindowEvent::MouseButton(button, action));
        r.active_transform
    };
    assert_eq!(b(&mut r, MouseButton::Button1, Action::Release), ActiveTransform::TransformNone);
    assert_eq!(b(&mut r, MouseButton::Button1, Action::Press), ActiveTransform::TransformMove);
    assert_eq!(b(&mut r, MouseButton::Button2, Action::Press), ActiveTransform::TransformMove);
    assert_eq!(b(&mut r, MouseButton::Button2, Action::Release), ActiveTransform::TransformMove);
    assert_eq!(b(&mut r, MouseButton::Button1, Action::Release), ActiveTransform::TransformNone);
    assert_eq!(b(&mut r, MouseButton::Button2, Action::Press), ActiveTransform::TransformScale);
    assert_eq!(b(&mut r, MouseButton::Button1, Action::Press), ActiveTransform::TransformScale);
    assert_eq!(b(&mut r, MouseButton::Button1, Action::Release), ActiveTransform::TransformScale);
    assert_eq!(b(&mut r, MouseButton::Button2, Action::Release), ActiveTransform::TransformNone);
    assert_eq!(b(&mut r, MouseButton::Other, Action::Press), ActiveTransform::TransformNone);
    assert_eq!(b(&mut r, MouseButton::Button1, Action::Repeat), ActiveTransform::TransformNone);
}

#[test]
fn a_drag_pans_the_first_two_axes() {
    let mut r = renderer();
    r.handle_event(WindowEvent::CursorPos(100, 100));
    assert_eq!((r.dimx.d, r.dimy.d, r.mouse_x, r.mouse_y), (0, 0, 100, 100));
    r.handle_event(WindowEvent::MouseButton(MouseButton::Button1, Action::Press));
    r.handle_event(WindowEvent::CursorPos(154, 83));
    // 54 of 800 pixels of a range of 4; 17 of 600 pixels of a range of 40, upwards
    assert_eq!((r.dimx.d, r.dimy.d), (270_000, 1_133_333));
    assert_eq!((r.mouse_x, r.mouse_y), (154, 83));
    assert_eq!(r.dimz.d, 0);
    r.handle_event(WindowEvent::MouseButton(MouseButton::Button1, Action::Release));
    r.handle_event(WindowEvent::CursorPos(0, 0));
    assert_eq!((r.dimx.d, r.dimy.d), (270_000, 1_133_333));
}

#[test]
fn a_drag_pans_in_a_window_without_room_between_the_margins() {
    let mut r = renderer();
    r.handle_event(WindowEvent::Size(200, 100));
    r.handle_event(WindowEvent::MouseButton(MouseButton::Button1, Action::Press));
    r.handle_event(WindowEvent::CursorPos(50, 0));
    // 50 of 200 pixels of a range of 4
    assert_eq!((r.dimx.d, r.dimy.d), (1_000_000, 0));
    r.handle_event(WindowEvent::CursorPos(50, 25));
    // 25 of 100 pixels of a range of 40, downwards
    assert_eq!((r.dimx.d, r.dimy.d), (1_000_000, -10_000_000));
    assert_eq!((r.dimx.s, r.dimy.s), (M, M));
    assert_eq!(r.dimz, Dimension { render_length: 200, ..renderer().dimz });
}

#[test]
fn a_drag_with_the_second_button_zooms() {
    let mut r = renderer();
    r.handle_event(WindowEvent::CursorPos(500, 400));
    r.handle_event(WindowEvent::MouseButton(MouseButton::Button2, Action::Press));
    r.handle_event(WindowEvent::CursorPos(600, 350));
    // offsets from the middle (400, 300): 100 -> 200 and 100 -> 50
    assert_eq!((r.dimx.s, r.dimy.s), (2 * M, M / 2));
    // the same place again: nothing changes
    r.handle_event(WindowEvent::CursorPos(600, 350));
    assert_eq!((r.dimx.s, r.dimy.s), (2 * M, M / 2));
    // across the middle: nothing changes
    r.handle_event(WindowEvent::CursorPos(300, 250));
    assert_eq!((r.dimx.s, r.dimy.s), (2 * M, M / 2));
    // from the middle: nothing changes
    r.handle_event(WindowEvent::CursorPos(400, 300));
    r.handle_event(WindowEvent::CursorPos(410, 310));
    assert_eq!((r.dimx.s, r.dimy.s), (2 * M, M / 2));
}

#[test]
fn keys_change_size_and_opacity() {
    let mut r = renderer();
    r.handle_event(press(Key::W));
    assert_eq!(r.point_scale, 6 * M);
    r.handle_event(press(Key::R));
    let mut sizes = Vec::new();
    for _ in 0..5 {
        r.handle_event(press(Key::Q));
        sizes.push(r.point_scale);
    }
    assert_eq!(sizes, vec![2_666_666, 1_777_777, 1_185_184, M, M]);
    r.handle_event(press(Key::S));
    assert_eq!(r.alpha_scale, M);
    r.handle_event(press(Key::A));
    assert_eq!(r.alpha_scale, 980_000);
    for _ in 0..60 {
        r.handle_event(press(Key::A));
    }
    assert_eq!(r.alpha_scale, 0);
    r.handle_event(press(Key::S));
    assert_eq!(r.alpha_scale, 20_000);
    r.handle_event(WindowEvent::Key(Key::S, Action::Release));
    r.handle_event(WindowEvent::Key(Key::S, Action::Repeat));
    r.handle_event(press(Key::Other));
    assert_eq!(r.alpha_scale, 20_000);
    r.point_scale = i64::MAX;
    r.handle_event(press(Key::W));
    assert_eq!(r.point_scale, i64::MAX);
}

#[test]
fn help_close_and_reset() {
    let mut r = renderer();
    r.handle_event(press(Key::H));
    assert!(r.show_help);
    r.handle_event(press(Key::H));
    assert!(!r.show_help);
    r.handle_event(WindowEvent::MouseButton(MouseButton::Button1, Action::Press));
    r.handle_event(WindowEvent::CursorPos(30, 40));
    r.handle_event(WindowEvent::Scroll(1, 1));
    r.handle_event(press(Key::W));
    r.handle_event(press(Key::A));
    let fresh = renderer();
    assert_ne!(r.dimx, fresh.dimx);
    r.handle_event(press(Key::R));
    assert_eq!((r.dimx, r.dimy, r.dimz), (fresh.dimx, fresh.dimy, fresh.dimz));
    assert_eq!((r.dimz_delta, r.dimz_scale), (0, M));
    assert_eq!((r.point_scale, r.alpha_scale), (4 * M, M));
    assert!(!r.should_close);
    r.handle_event(press(Key::Escape));
    assert!(r.should_close);
}

#[test]
fn the_next_column_after_the_last_is_the_first() {
    assert_eq!(next_column(0, 3), 1);
    assert_eq!(next_column(1, 3), 2);
    assert_eq!(next_column(2, 3), 0);
    assert_eq!(previous_column(0, 3), 2);
    assert_eq!(previous_column(2, 3), 1);
    assert_eq!(next_column(0, 1), 0);
    assert_eq!(previous_column(0, 1), 0);
    let mut r = renderer();
    let mut seen = Vec::new();
    for _ in 0..4 {
        r.handle_event(press(Key::Right));
        seen.push(r.table.columns()[r.dimx.column].clone());
    }
    assert_eq!(seen, vec![s("y"), s("z"), s("x"), s("y")]);
    r.handle_event(press(Key::Left));
    r.handle_event(press(Key::Left));
    assert_eq!(r.dimx.column, 2);
    assert_eq!(r.dimx.range, Some((7 * M, 7 * M)));
    assert_eq!(r.projection.x.span, 2 * M as i128);
}

#[test]
fn rebinding_keeps_the_length_and_goes_back_to_the_fit() {
    let mut r = renderer();
    r.handle_event(WindowEvent::Size(1000, 700));
    r.handle_event(WindowEvent::MouseButton(MouseButton::Button1, Action::Press));
    r.handle_event(WindowEvent::CursorPos(30, 40));
    r.handle_event(WindowEvent::Scroll(0, 1));
    r.handle_event(press(Key::Down));
    assert_eq!(r.dimy, Dimension { render_length: 700, d: 0, s: M, range: Some((7 * M, 7 * M)), column: 2 });
    r.handle_event(press(Key::Up));
    r.handle_event(press(Key::Up));
    assert_eq!(r.dimy.column, 0);
    assert_eq!(r.projection.y.span, 4 * M as i128);
    assert_ne!(r.dimz_scale, M);
    r.handle_event(press(Key::PageDown));
    assert_eq!(r.dimz, Dimension { render_length: 1000, d: 0, s: M, range: Some((M, 5 * M)), column: 0 });
    assert_eq!((r.dimz_delta, r.dimz_scale), (0, M));
    assert_eq!(r.projection.z.span, 4 * M as i128);
    r.handle_event(press(Key::PageUp));
    assert_eq!(r.dimz.column, 2);
}

#[test]
fn the_wheel_moves_and_zooms_the_depth() {
    let mut r = renderer();
    r.handle_event(press(Key::PageDown));
    assert_eq!(r.dimz.range, Some((M, 5 * M)));
    r.handle_event(WindowEvent::Scroll(1, 0));
    assert_eq!((r.dimz.d, r.dimz_delta), (-135_000, 200_000));
    r.handle_event(WindowEvent::Scroll(-1, 0));
    r.handle_event(WindowEvent::Scroll(-1, 0));
    assert_eq!((r.dimz.d, r.dimz_delta), (135_000, -200_000));
    r.handle_event(WindowEvent::Scroll(0, 1));
    assert_eq!((r.dimz.d, r.dimz.s), (141_750, 1_050_000));
    assert_eq!((r.dimz_delta, r.dimz_scale), (-210_000, 1_050_000));
    r.handle_event(WindowEvent::Scroll(0, -1));
    assert_eq!((r.dimz.d, r.dimz.s), (135_000, 1_000_000));
    assert_eq!((r.dimz_delta, r.dimz_scale), (-200_000, 1_000_000));
    r.handle_event(WindowEvent::Scroll(0, 0));
    assert_eq!((r.dimz.d, r.dimz.s), (135_000, 1_000_000));
    assert_eq!((r.dimx.d, r.dimx.s, r.dimy.d, r.dimy.s), (0, M, 0, M));
}

#[test]
fn a_new_size_changes_the_lengths() {
    let mut r = renderer();
    r.handle_event(WindowEvent::Size(1024, 768));
    assert_eq!((r.dimx.render_length, r.dimy.render_length, r.dimz.render_length), (1024, 768, 1024));
    r.handle_event(WindowEvent::Size(0, 768));
    r.handle_event(WindowEvent::Size(100, -1));
    assert_eq!((r.dimx.render_length, r.dimy.render_length, r.dimz.render_length), (1024, 768, 1024));
}

#[test]
fn every_event_marks_a_change() {
    let mut r = renderer();
    assert!(r.renderloop(&vec![]).is_some());
    assert!(!r.changed);
    assert!(r.renderloop(&vec![]).is_none());
    assert!(r.renderloop(&vec![WindowEvent::Other]).is_some());
    assert!(r.renderloop(&vec![]).is_none());
    r.handle_event(WindowEvent::CursorPos(1, 1));
    assert!(r.changed);
}

#[test]
fn the_first_frame() {
    let r = renderer();
    let frame = r.redraw();
    assert_eq!((frame.width, frame.height, frame.count), (800, 600, 5));
    assert_eq!((frame.point_scale, frame.alpha_scale), (4 * M, M));
    assert_eq!((frame.pan_x, frame.zoom_x, frame.pan_z, frame.zoom_z), (0, M, 0, M));
    assert_eq!(frame.projection, r.projection);
    assert_eq!((frame.column_x, frame.column_y, frame.column_z), (0, 1, 2));
    // 9 markers on the first axis, 5 on the second, none on the third
    assert_eq!(frame.commands.len(), 4 + 4 * 9 + 4 + 4 * 5 + 2 + 1);
    let c = &frame.commands;
    assert_eq!(c[0], DrawCommand::Line { x0: 130, y0: 130, x1: 670, y1: 130, stroke: Stroke::Axis });
    assert_eq!(c[1], DrawCommand::Line { x0: 130, y0: 470, x1: 670, y1: 470, stroke: Stroke::Axis });
    assert_eq!(
        c[2],
        DrawCommand::Text {
            x: 400,
            y: 50,
            rotation: 0,
            hor: AnchorHor::Center,
            vert: AnchorVert::Top,
            label: Label::Column(0)
        }
    );
    assert_eq!(
        c[3],
        DrawCommand::Text {
            x: 400,
            y: 550,
            rotation: 0,
            hor: AnchorHor::Center,
            vert: AnchorVert::Bottom,
            label: Label::Column(0)
        }
    );
    let one_and_a_half = Label::Number { value: 1_500_000, decimals: 6, digits: 2 };
    assert_eq!(
        c[8],
        DrawCommand::Text {
            x: 197,
            y: 120,
            rotation: 270,
            hor: AnchorHor::Left,
            vert: AnchorVert::Middle,
            label: one_and_a_half
        }
    );
    assert_eq!(
        c[9],
        DrawCommand::Text {
            x: 197,
            y: 480,
            rotation: 90,
            hor: AnchorHor::Left,
            vert: AnchorVert::Middle,
            label: one_and_a_half
        }
    );
    assert_eq!(c[10], DrawCommand::Line { x0: 197, y0: 124, x1: 197, y1: 130, stroke: Stroke::Tick });
    assert_eq!(c[11], DrawCommand::Line { x0: 197, y0: 476, x1: 197, y1: 470, stroke: Stroke::Tick });
    // the second axis starts after the first
    let y = 4 + 4 * 9;
    assert_eq!(c[y], DrawCommand::Line { x0: 130, y0: 130, x1: 130, y1: 470, stroke: Stroke::Axis });
    assert_eq!(c[y + 1], DrawCommand::Line { x0: 670, y0: 130, x1: 670, y1: 470, stroke: Stroke::Axis });
    assert_eq!(
        c[y + 2],
        DrawCommand::Text {
            x: 50,
            y: 300,
            rotation: 270,
            hor: AnchorHor::Center,
            vert: AnchorVert::Top,
            label: Label::Column(1)
        }
    );
    // its lowest marker lies at the bottom
    let zero = Label::Number { value: 0, decimals: 6, digits: 1 };
    assert_eq!(
        c[y + 4],
        DrawCommand::Text {
            x: 120,
            y: 470,
            rotation: 0,
            hor: AnchorHor::Right,
            vert: AnchorVert::Middle,
            label: zero
        }
    );
    assert_eq!(
        c[y + 5],
        DrawCommand::Text {
            x: 680,
            y: 470,
            rotation: 0,
            hor: AnchorHor::Left,
            vert: AnchorVert::Middle,
            label: zero
        }
    );
    assert_eq!(c[y + 6], DrawCommand::Line { x0: 124, y0: 470, x1: 130, y1: 470, stroke: Stroke::Tick });
    assert_eq!(c[y + 7], DrawCommand::Line { x0: 676, y0: 470, x1: 670, y1: 470, stroke: Stroke::Tick });
    // the marker 10 of 0 to 40 on 340 pixels
    assert_eq!(c[y + 10], DrawCommand::Line { x0: 124, y0: 385, x1: 130, y1: 385, stroke: Stroke::Tick });
    let z = y + 4 + 4 * 5;
    assert_eq!(c[z], DrawCommand::Line { x0: 130, y0: 574, x1: 670, y1: 574, stroke: Stroke::Axis });
    assert_eq!(
        c[z + 1],
        DrawCommand::Text {
            x: 2,
            y: 598,
            rotation: 0,
            hor: AnchorHor::Left,
            vert: AnchorVert::Bottom,
            label: Label::Depth(2)
        }
    );
    assert_eq!(
        c[z + 2],
        DrawCommand::Text {
            x: 798,
            y: 2,
            rotation: 0,
            hor: AnchorHor::Right,
            vert: AnchorVert::Top,
            label: Label::Objects(5)
        }
    );
}

#[test]
fn the_depth_axis_and_the_help_text() {
    let mut r = renderer();
    r.handle_event(press(Key::PageDown));
    r.handle_event(press(Key::H));
    let frame = r.redraw();
    let c = &frame.commands;
    assert_eq!(c.len(), 1 + 4 + 4 * 9 + 4 + 4 * 5 + 2 + 2 * 9 + 1);
    assert_eq!(
        c[0],
        DrawCommand::Text {
            x: 400,
            y: 300,
            rotation: 0,
            hor: AnchorHor::Center,
            vert: AnchorVert::Middle,
            label: Label::Help
        }
    );
    let z = 1 + 4 + 4 * 9 + 4 + 4 * 5;
    assert_eq!(
        c[z + 4],
        DrawCommand::Text {
            x: 197,
            y: 564,
            rotation: 0,
            hor: AnchorHor::Center,
            vert: AnchorVert::Bottom,
            label: Label::Number { value: 1_500_000, decimals: 6, digits: 2 }
        }
    );
    assert_eq!(c[z + 5], DrawCommand::Line { x0: 197, y0: 568, x1: 197, y1: 574, stroke: Stroke::Tick });
}

#[test]
fn a_window_without_room_has_axes_without_ticks() {
    let mut r = renderer();
    r.handle_event(WindowEvent::Size(200, 100));
    let frame = r.redraw();
    assert_eq!(frame.commands.len(), 4 + 4 + 2 + 1);
}

#[test]
fn frames_of_a_session() {
    let batches = vec![
        vec![],
        vec![],
        vec![press(Key::H), press(Key::W)],
        vec![],
        vec![WindowEvent::Other],
        vec![press(Key::Escape)],
        vec![press(Key::H)],
    ];
    let frames = render(table(), &s("x"), &s("y"), &s("z"), &batches);
    // the first turn draws the fresh plot, then the turns with events do
    assert_eq!(frames.len(), 4);
    assert_eq!(frames[0].point_scale, 4 * M);
    assert_eq!(frames[1].point_scale, 6 * M);
    assert_eq!(frames[0].commands.len() + 1, frames[1].commands.len());
    assert_eq!(frames[2].commands, frames[1].commands);
    assert_eq!(frames[3].commands, frames[1].commands);
    let none: Vec<Vec<WindowEvent>> = vec![];
    assert!(render(table(), &s("x"), &s("y"), &s("z"), &none).is_empty());
}
