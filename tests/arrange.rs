use sway_row::layout::{arrange, position_command};
use sway_row::output::get_sway_outputs;
use sway_row::{Error, Output, RawOutput};

fn raw(name: &str, width: Option<i32>) -> RawOutput {
    RawOutput { name: name.to_string(), current_width: width }
}

fn out(name: &str, width: i32) -> Output {
    Output { name: name.to_string(), width }
}

fn plan(reported: Vec<RawOutput>) -> (Vec<String>, Vec<Error>) {
    let (outputs, rejected) = get_sway_outputs(&reported);
    (arrange(&outputs).unwrap(), rejected)
}

#[test]
fn two_outputs_side_by_side() {
    let commands = arrange(&vec![out("A", 1920), out("B", 1080)]).unwrap();
    assert_eq!(commands, vec!["output A pos 0 0", "output B pos 1920 0"]);
}

#[test]
fn output_without_mode_is_reported_and_skipped() {
    let (commands, rejected) = plan(vec![raw("A", None), raw("B", Some(1080))]);
    assert_eq!(commands, vec!["output B pos 0 0"]);
    assert_eq!(rejected.len(), 1);
    assert_eq!(rejected[0].message(), "Error: Output lacks current mode");
}

#[test]
fn x_is_sum_of_earlier_widths() {
    let commands =
        arrange(&vec![out("DP-1", 2560), out("HDMI-A-1", 1920), out("eDP-1", 1366), out("DP-2", 800)])
            .unwrap();
    assert_eq!(
        commands,
        vec![
            "output DP-1 pos 0 0",
            "output HDMI-A-1 pos 2560 0",
            "output eDP-1 pos 4480 0",
            "output DP-2 pos 5846 0",
        ]
    );
}

#[test]
fn output_without_mode_in_middle_leaves_offsets_alone() {
    let (with_gap, rejected) =
        plan(vec![raw("A", Some(1280)), raw("B", None), raw("C", Some(1024))]);
    let (without, none) = plan(vec![raw("A", Some(1280)), raw("C", Some(1024))]);
    assert_eq!(with_gap, vec!["output A pos 0 0", "output C pos 1280 0"]);
    assert_eq!(with_gap, without);
    assert_eq!(rejected.len(), 1);
    assert!(none.is_empty());
}

#[test]
fn no_outputs_no_commands() {
    let (commands, rejected) = plan(vec![]);
    assert!(commands.is_empty());
    assert!(rejected.is_empty());
}

#[test]
fn only_outputs_without_mode_no_commands() {
    let (commands, rejected) = plan(vec![raw("A", None), raw("B", None)]);
    assert!(commands.is_empty());
    assert_eq!(rejected.len(), 2);
    assert!(matches!(rejected[1], Error::Plain("Output lacks current mode")));
}

#[test]
fn arranging_twice_gives_same_commands() {
    let outputs = vec![out("A", 1920), out("B", 1080), out("C", 3840)];
    let first = arrange(&outputs).unwrap();
    let second = arrange(&outputs).unwrap();
    assert_eq!(first, second);
    assert_eq!(first[2], "output C pos 3000 0");
}

#[test]
fn single_output_goes_to_origin() {
    assert_eq!(arrange(&vec![out("eDP-1", 1920)]).unwrap(), vec!["output eDP-1 pos 0 0"]);
}

#[test]
fn position_past_i32_is_refused() {
    assert!(arrange(&vec![out("A", i32::MAX), out("B", 1), out("C", 1)]).is_none());
}

#[test]
fn last_output_may_end_past_i32() {
    let commands = arrange(&vec![out("A", i32::MAX - 1), out("B", i32::MAX)]).unwrap();
    assert_eq!(commands, vec!["output A pos 0 0", "output B pos 2147483646 0"]);
}

#[test]
fn largest_position_fits() {
    let commands = arrange(&vec![out("A", i32::MAX), out("B", 5)]).unwrap();
    assert_eq!(commands[1], "output B pos 2147483647 0");
}

#[test]
fn negative_widths_move_left() {
    let commands = arrange(&vec![out("A", -100), out("B", 10)]).unwrap();
    assert_eq!(commands, vec!["output A pos 0 0", "output B pos -100 0"]);
}

#[test]
fn command_text_formats_signed_numbers() {
    assert_eq!(position_command("HDMI-A-1", 0, 0), "output HDMI-A-1 pos 0 0");
    assert_eq!(position_command("X", 10, 7), "output X pos 10 7");
    assert_eq!(position_command("X", -5, 1234567), "output X pos -5 1234567");
    assert_eq!(
        position_command("X", i32::MIN, i32::MAX),
        "output X pos -2147483648 2147483647"
    );
}

#[test]
fn try_from_keeps_name_and_width() {
    let output = Output::try_from(&raw("DP-3", Some(2560))).unwrap();
    assert_eq!(output.name, "DP-3");
    assert_eq!(output.width, 2560);
}

#[test]
fn try_from_refuses_output_without_mode() {
    let result = Output::try_from(&raw("DP-3", None));
    assert!(matches!(result, Err(Error::Plain("Output lacks current mode"))));
}

#[test]
fn listing_keeps_reported_order() {
    let (outputs, rejected) =
        get_sway_outputs(&vec![raw("Z", Some(10)), raw("Y", None), raw("A", Some(30))]);
    assert_eq!(outputs.len(), 2);
    assert_eq!((outputs[0].name.as_str(), outputs[0].width), ("Z", 10));
    assert_eq!((outputs[1].name.as_str(), outputs[1].width), ("A", 30));
    assert_eq!(rejected.len(), 1);
}

#[test]
fn ipc_error_converts_and_keeps_its_text() {
    let error = Error::from(swayipc::Error::SocketNotFound);
    assert!(matches!(error, Error::Ipc(swayipc::Error::SocketNotFound)));
    assert_eq!(error.message(), "could not find the socket for neither i3 nor sway");
}

#[test]
fn plain_error_message() {
    assert_eq!(Error::Plain("something").message(), "Error: something");
}
