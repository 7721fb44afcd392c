use svg::{Command, Data, Number, Parameters, Position};
use svg::IntoParameters;

#[test]
fn data_append() {
    let mut data = Data::new();
    data.append(Command::Line(Position::Absolute, (1, 2).into_parameters()));
    data.append(Command::Close);
    assert_eq!(data.into_string(), "L1,2 z");
}

// The value 2 renders as `2`: numbers render unchanged, in canonical form.
#[test]
fn data_into_value() {
    let data = Data::new()
        .line_to((1, 2))
        .cubic_curve_by((1, 2, 3, 4, 5, 6))
        .close();

    assert_eq!(data.into_string(), "L1,2 c1,2,3,4,5,6 z");
}

#[test]
fn fluent_line_then_close() {
    assert_eq!(Data::new().line_to((1, 2)).close().into_string(), "L1,2 z");
}

#[test]
fn relative_moves_and_lines() {
    let data = Data::new().move_by((5, 5)).line_by((10, 0)).close();
    assert_eq!(data.into_string(), "m5,5 l10,0 z");
}

#[test]
fn horizontal_and_vertical_lines() {
    let data = Data::new().horizontal_line_to(10).vertical_line_by(-3);
    assert_eq!(data.into_string(), "H10 v-3");
}

#[test]
fn empty_data_renders_empty() {
    assert_eq!(Data::new().into_string(), "");
    assert_eq!(Data::default().into_string(), "");
}

#[test]
fn elliptical_arc_absolute() {
    let data = Data::new().elliptical_arc_to((5, 5, 0, 1, 0, 10, 10));
    assert_eq!(data.into_string(), "A5,5,0,1,0,10,10");
}

#[test]
fn every_letter_follows_position() {
    let data = Data::new()
        .move_to((1, 1))
        .move_by((1, 1))
        .line_to((1, 1))
        .line_by((1, 1))
        .horizontal_line_to(1)
        .horizontal_line_by(1)
        .vertical_line_to(1)
        .vertical_line_by(1)
        .quadratic_curve_to((1, 1, 1, 1))
        .quadratic_curve_by((1, 1, 1, 1))
        .smooth_quadratic_curve_to((1, 1))
        .smooth_quadratic_curve_by((1, 1))
        .cubic_curve_to((1, 1, 1, 1, 1, 1))
        .cubic_curve_by((1, 1, 1, 1, 1, 1))
        .smooth_cubic_curve_to((1, 1, 1, 1))
        .smooth_cubic_curve_by((1, 1, 1, 1))
        .elliptical_arc_to((1, 1, 0, 0, 1, 1, 1))
        .elliptical_arc_by((1, 1, 0, 0, 1, 1, 1))
        .close();
    assert_eq!(
        data.into_string(),
        "M1,1 m1,1 L1,1 l1,1 H1 h1 V1 v1 Q1,1,1,1 q1,1,1,1 T1,1 t1,1 \
         C1,1,1,1,1,1 c1,1,1,1,1,1 S1,1,1,1 s1,1,1,1 A1,1,0,0,1,1,1 a1,1,0,0,1,1,1 z"
    );
}

#[test]
fn append_extends_view_by_one() {
    let mut data = Data::new().move_to((0, 0));
    let before = data.to_vec();
    let command = Command::Line(Position::Relative, (3, 4).into_parameters());
    data.append(command.clone());
    assert_eq!(data.len(), before.len() + 1);
    assert_eq!(data.last(), Some(&command));
    assert_eq!(&data[..before.len()], &before[..]);
}

#[test]
fn add_chain_matches_append() {
    let first = Command::Move(Position::Absolute, (1, 2).into_parameters());
    let second = Command::Close;
    let chained = Data::new().add(first.clone()).add(second.clone());
    let mut appended = Data::new();
    appended.append(first);
    appended.append(second);
    assert_eq!(chained, appended);
}

#[test]
fn view_is_stable_without_mutation() {
    let data = Data::new().line_to((1, 2)).close();
    let a = data.to_vec();
    let b = data.to_vec();
    assert_eq!(a, b);
    assert_eq!(&*data, &a[..]);
}

#[test]
fn permuted_commands_permute_tokens() {
    let a = Command::Move(Position::Absolute, (1, 2).into_parameters());
    let b = Command::Line(Position::Relative, (3, 4).into_parameters());
    let c = Command::Close;
    let forward = Data::from(vec![a.clone(), b.clone(), c.clone()]).into_string();
    let shuffled = Data::from(vec![c, a, b]).into_string();
    let f: Vec<&str> = forward.split(' ').collect();
    let s: Vec<&str> = shuffled.split(' ').collect();
    assert_eq!(f, vec!["M1,2", "l3,4", "z"]);
    assert_eq!(s, vec![f[2], f[0], f[1]]);
}

#[test]
fn numbers_render_canonically() {
    let data = Data::new()
        .line_to((Number::integer(2), Number::new(25, 1)))
        .line_to((Number::new(250, 2), Number::new(20, 1)))
        .line_to((Number::new(-5, 1), Number::new(105, 2)))
        .line_to((Number::new(1, 3), Number::new(0, 4)))
        .line_to((Number::new(-1200, 2), Number::new(i64::MIN, 0)));
    assert_eq!(
        data.into_string(),
        "L2,2.5 L2.5,2 L-0.5,1.05 L0.001,0 L-12,-9223372036854775808"
    );
}

#[test]
fn number_conversions_keep_value() {
    let p = (7i64, Number::new(15, 1)).into_parameters();
    assert_eq!(p, Parameters(vec![Number::integer(7), Number::new(15, 1)]));
    let single = 4.into_parameters();
    assert_eq!(single.0, vec![Number::new(4, 0)]);
    let from_vec = vec![Number::new(-1, 0)].into_parameters();
    assert_eq!(Command::VerticalLine(Position::Relative, from_vec).render(), "v-1");
}

#[test]
fn command_render_single() {
    assert_eq!(Command::Close.render(), "z");
    let arc = Command::EllipticalArc(Position::Relative, (5, 5, 0, 1, 0, 10, 10).into_parameters());
    assert_eq!(arc.render(), "a5,5,0,1,0,10,10");
}

#[test]
fn data_vec_round_trip() {
    let commands = vec![Command::Close, Command::Move(Position::Relative, (1, 1).into_parameters())];
    let data = Data::from(commands.clone());
    let back: Vec<Command> = data.into();
    assert_eq!(back, commands);
}
