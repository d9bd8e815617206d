use mkutils::{
    cycle_index, ActiveVec, Indexed, Is, OptionDisplay, OptionalResult, Orientation, Outcome, Output, Point,
    PointU16, PointUsize, ReadValue, ResultDisplay, RunForError, SaturatingAddSigned, SaturatingSub,
    StatusDisplay,
};
use std::ops::ControlFlow;

#[test]
fn active_vec_cycles() {
    let mut vec = ActiveVec::new('a');
    let (index, item) = vec.push('b');
    assert_eq!(index, 1);
    assert_eq!(*item, 'b');
    vec.push('c');

    assert_eq!(*vec.active(), 'a');
    vec.cycle_next();
    assert_eq!(*vec.active(), 'b');
    vec.cycle(5);
    assert_eq!(vec.active_index(), 0);
    vec.cycle_prev();
    assert_eq!(vec.active_index(), 2);
    vec.cycle(-7);
    assert_eq!(vec.active_index(), 1);
    // cycling by an amount and back by the same amount returns to the start
    vec.cycle(isize::MAX).cycle(-isize::MAX);
    assert_eq!(vec.active_index(), 1);
    vec.cycle(3);
    assert_eq!(vec.active_index(), 1);
}

#[test]
fn active_vec_edits() {
    let mut vec = ActiveVec::new(10);

    assert_eq!(vec.remove_active(), None);
    vec.push(20);
    vec.push(30);
    vec.set_active_index(2);
    assert_eq!(vec.active_index(), 2);
    vec.set_active_index(9);
    assert_eq!(vec.active_index(), 2);
    *vec.active_mut() += 1;
    assert_eq!(vec.as_slice(), &[10, 20, 31]);
    assert_eq!(vec.remove_active(), Some(31));
    assert_eq!(vec.active_index(), 1);
    vec.set_active_index(0);
    assert_eq!(vec.remove_active(), Some(10));
    assert_eq!(vec.active_index(), 0);
    vec.as_slice_mut()[0] = 7;
    assert_eq!(vec.as_slice(), &[7]);
}

#[test]
fn cycle_index_wraps() {
    assert_eq!(cycle_index(0, -1, 4), 3);
    assert_eq!(cycle_index(3, 1, 4), 0);
    assert_eq!(cycle_index(2, isize::MIN, 3), 0);
    assert_eq!(cycle_index(1, isize::MAX, 5), 3);
}

#[test]
fn orientation_and_points() {
    assert_eq!(Orientation::Horizontal.toggled(), Orientation::Vertical);
    let mut orientation = Orientation::Vertical;
    orientation.toggle();
    orientation.toggle();
    assert_eq!(orientation, Orientation::Vertical);
    assert!(orientation.is_vertical() && !orientation.is_horizontal());

    let mut point: PointU16 = Point::new(3, 9);
    assert_eq!(*point.get(Orientation::Horizontal), 3);
    *point.get_mut(Orientation::Vertical) = 4;
    assert_eq!(point.into_pair(), (3, 4));

    let wide: PointUsize = Point::new(3u16, 4u16).into_point();
    assert_eq!(wide.into_pair(), (3usize, 4usize));
    assert_eq!(Point::new(5u8, 1u8).saturating_sub(&Point::new(2, 3)).into_pair(), (3, 0));
}

#[test]
fn saturating_operations() {
    assert_eq!(SaturatingAddSigned::saturating_add_signed(&250u8, &10), 255);
    assert_eq!(SaturatingAddSigned::saturating_add_signed(&5u8, &-10), 0);
    assert_eq!(SaturatingAddSigned::saturating_add_signed(&5usize, &-2), 3);
    assert_eq!(SaturatingAddSigned::saturating_add_signed(&u128::MAX, &1), u128::MAX);
    assert_eq!(SaturatingSub::saturating_sub(&3u32, &7), 0);
    assert_eq!(SaturatingSub::saturating_sub(&9u64, &7), 2);
}

#[test]
fn output_conversions() {
    assert_eq!(Output::<u8, ()>::Value(1).into_option(), Some(Ok(1)));
    assert_eq!(Output::<u8, ()>::EndOk.into_option(), None);
    assert_eq!(Output::<u8, &str>::EndErr("bad").into_end(), Err("bad"));
    assert_eq!(Output::<u8, &str>::Value(3).into_end(), Ok(()));
    assert_eq!(Output::<u8, ()>::Value(4).into_control_flow(), ControlFlow::Continue(4));
    assert_eq!(Output::<u8, ()>::EndOk.into_control_flow(), ControlFlow::Break(Ok(())));
    assert_eq!(Output::<u8, ()>::EndOk.into_result(), Ok(0));
    assert!(matches!(Output::<u8, ()>::from(Some(Ok(5))), Output::Value(5)));
    assert!(matches!(Output::<u8, &str>::from(Err::<u8, &str>("e")), Output::EndErr("e")));
}

#[test]
fn optional_result_and_outcome() {
    assert_eq!(OptionalResult::<u8, ()>(None).into_result(), Ok(0));
    assert_eq!(OptionalResult::<u8, ()>::from_ok(7).into_inner(), Some(Ok(7)));
    assert_eq!(OptionalResult::<u8, &str>::from(Some(Err("e"))).into_result(), Err("e"));
    assert_eq!(OptionalResult::<u8, ()>::default().into_inner(), None);

    assert!(matches!(Outcome::<u8, String>::from_option_result(Some(Err("x"))), Outcome::Failure(s) if s == "x"));
    assert!(matches!(Outcome::<u8, String>::from_option_result::<&str>(None), Outcome::Nothing));
    assert!(matches!(Outcome::<u8, String>::from_result::<&str>(Ok(2)), Outcome::Value(2)));
    assert!(matches!(Outcome::<u8, ()>::default(), Outcome::Nothing));
}

#[test]
fn small_wrappers() {
    let indexed = Indexed::from((2, "two"));
    assert_eq!((indexed.index, indexed.value), (2, "two"));
    assert_eq!(Is::<u8>::into_self(5u8), 5);

    let read = ReadValue::new("notes.txt", Ok::<String, std::io::Error>("hi".to_string()));
    assert_eq!(read.filepath, "notes.txt");
    assert_eq!(read.result.unwrap(), "hi");

    assert_eq!(OptionDisplay::<Option<u8>, u8>::text(Some("3")), "3");
    assert_eq!(OptionDisplay::<Option<u8>, u8>::text(None), "none");
    assert_eq!(ResultDisplay::<Result<u8, u8>, u8, u8>::text(Err("boom")), "boom");
    assert_eq!(StatusDisplay::<Result<u8, u8>, u8, u8>::text(None), "ok");
    assert_eq!(StatusDisplay::<Result<u8, u8>, u8, u8>::text(Some("boom")), "error: boom");
    assert_eq!(RunForError::<u8>::debug_text("u8"), "RunForError<u8>");
    assert_eq!(RunForError::new(1u8).0, 1);
    assert_eq!(RunForError::<u8>::display_text("Sleep"), "Sleep future resolved before the allotted time");
}

#[test]
fn output_round_trip() {
    for output in [Output::<u8, char>::Value(9), Output::EndOk, Output::EndErr('x')] {
        let back = Output::from(output.into_option());

        assert!(matches!(back, Output::Value(9) | Output::EndOk | Output::EndErr('x')));
    }
    assert!(matches!(Output::from(Output::<u8, char>::EndErr('y').into_option()), Output::EndErr('y')));
    assert!(matches!(Output::from(Output::<u8, char>::Value(1).into_option()), Output::Value(1)));
}
