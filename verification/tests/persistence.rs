//! Tests of the scene loop and of the serialization round trip.

use mpc_core::accel_diff_drive::{AccelDiffDriveAgent, AccelState};
use mpc_core::agent::Pose;
use mpc_core::diff_drive::DiffDriveAgent;
use mpc_core::scene::{Scene, SceneAgent};

const SCALE: i64 = 1_000_000;

fn drive(state: (i64, i64, i64), goal: (i64, i64, i64)) -> SceneAgent {
    SceneAgent::Drive(DiffDriveAgent {
        state: Pose { x: state.0, y: state.1, th: state.2 },
        goal: Pose { x: goal.0, y: goal.1, th: goal.2 },
    })
}

fn accel(state: (i64, i64, i64, i64, i64), goal: (i64, i64, i64)) -> SceneAgent {
    SceneAgent::Accel(AccelDiffDriveAgent {
        state: AccelState { x: state.0, y: state.1, th: state.2, v: state.3, w: state.4 },
        goal: Pose { x: goal.0, y: goal.1, th: goal.2 },
    })
}

#[test]
fn done_is_an_or_across_agents() {
    // Only the first agent is within the tolerance of 0.1.
    let near = drive((0, 0, 0), (50_000, 0, 0));
    let far = drive((0, 0, 0), (SCALE, SCALE, 0));
    let both_far = Scene { agents: vec![far, far] };
    assert!(!both_far.done());
    let one_near = Scene { agents: vec![near, far] };
    assert!(one_near.done());
    let other_near = Scene { agents: vec![far, near] };
    assert!(other_near.done());
    let empty = Scene { agents: vec![] };
    assert!(!empty.done());
}

#[test]
fn run_once_moves_agents_and_keeps_goals() {
    let mut scene = Scene { agents: vec![drive((0, 0, 0), (SCALE, 0, 0))] };
    scene.run_once();
    assert_eq!(scene.agents.len(), 1);
    match &scene.agents[0] {
        SceneAgent::Drive(a) => {
            assert_eq!(a.goal, Pose { x: SCALE, y: 0, th: 0 });
            // One step changes the heading by at most one time step's worth.
            assert!(a.state.th.abs() <= 10_000);
        }
        _ => panic!("variant changed"),
    }
}

#[test]
fn run_stops_once_an_agent_has_arrived() {
    // Already within tolerance: the loop must stop without a step.
    let mut scene = Scene { agents: vec![drive((0, 0, 0), (50_000, 0, 0))] };
    assert!(scene.run());
    match &scene.agents[0] {
        SceneAgent::Drive(a) => assert_eq!(a.state, Pose { x: 0, y: 0, th: 0 }),
        _ => panic!("variant changed"),
    }
    // Just outside tolerance: a step or two must finish the run.
    let mut close = Scene { agents: vec![drive((0, 0, 0), (105_000, 0, 0))] };
    assert!(close.run());
    assert!(close.done());
}

#[test]
fn scene_round_trip_is_exact() {
    let agents = vec![
        drive((1, -2, 3), (4, -5, 6)),
        accel(
            (i64::MAX, i64::MIN, -1, SCALE, -SCALE),
            (7_654_321, -7_654_321, 0),
        ),
        drive((0, 0, 0), (0, 0, 0)),
    ];
    let scene = Scene { agents: agents.clone() };
    let bytes = scene.save();
    assert_eq!(bytes.len(), 8 + 49 + 65 + 49);
    let back = Scene::load(&bytes).expect("the encoding of a scene must decode");
    assert_eq!(back.agents, agents);
}

#[test]
fn identical_variant_round_trip_is_exact() {
    let agents = vec![
        accel((10, 20, 30, 40, 50), (60, 70, 80)),
        accel((-10, -20, -30, -40, -50), (-60, -70, -80)),
    ];
    let scene = Scene { agents: agents.clone() };
    let back = Scene::load(&scene.save()).expect("the encoding of a scene must decode");
    assert_eq!(back.agents, agents);
}

#[test]
fn empty_scene_round_trip_is_exact() {
    let scene = Scene { agents: vec![] };
    let bytes = scene.save();
    assert_eq!(bytes.len(), 8);
    let back = Scene::load(&bytes).expect("the encoding of a scene must decode");
    assert_eq!(back.agents.len(), 0);
}

#[test]
fn malformed_inputs_load_nothing() {
    // Too short for a count.
    assert!(Scene::load(&vec![0u8; 7]).is_none());
    // A count of one with no record behind it.
    let mut count_only = vec![0u8; 8];
    count_only[0] = 1;
    assert!(Scene::load(&count_only).is_none());
    // A bad variant tag.
    let mut bad_tag = vec![0u8; 8 + 49];
    bad_tag[0] = 1;
    bad_tag[8] = 9;
    assert!(Scene::load(&bad_tag).is_none());
    // A record cut short.
    let mut short_record = vec![0u8; 8 + 48];
    short_record[0] = 1;
    assert!(Scene::load(&short_record).is_none());
    // Trailing bytes after the declared records.
    let scene = Scene { agents: vec![drive((1, 2, 3), (4, 5, 6))] };
    let mut padded = scene.save();
    padded.push(0);
    assert!(Scene::load(&padded).is_none());
    // An undeclared extra record.
    let two = Scene { agents: vec![drive((1, 2, 3), (4, 5, 6)), drive((1, 2, 3), (4, 5, 6))] };
    let mut undercounted = two.save();
    undercounted[0] = 1;
    assert!(Scene::load(&undercounted).is_none());
}
