use der6y::route::{synthesize_route, RouteError};

fn walked(hops: &[u64], track: &[usize]) -> u64 {
    track.iter().skip(1).map(|&v| hops[v]).sum()
}

#[test]
fn route_stops_at_the_first_point_that_reaches_the_target() {
    let hops = vec![5, 3, 4];
    assert_eq!(synthesize_route(&hops, 6), Ok(vec![0, 1, 2]));
    assert_eq!(synthesize_route(&hops, 7), Ok(vec![0, 1, 2]));
    assert_eq!(synthesize_route(&hops, 3), Ok(vec![0, 1]));
    assert_eq!(synthesize_route(&hops, 1), Ok(vec![0, 1]));
}

#[test]
fn route_of_zero_target_is_the_first_vertex() {
    assert_eq!(synthesize_route(&vec![5, 3, 4], 0), Ok(vec![0]));
    assert_eq!(synthesize_route(&vec![0, 0], 0), Ok(vec![0]));
}

#[test]
fn route_replays_the_template_past_its_length() {
    let hops = vec![5, 3, 4];
    // The path itself is 7 long; the closing hop back to vertex 0 is 5.
    assert_eq!(synthesize_route(&hops, 8), Ok(vec![0, 1, 2, 0]));
    let track = synthesize_route(&hops, 40).unwrap();
    assert!(track.len() > hops.len());
    for (k, v) in track.iter().enumerate() {
        assert_eq!(*v, k % hops.len());
    }
}

#[test]
fn route_distance_reaches_target_by_less_than_a_hop() {
    let hops = vec![120, 80, 0, 250, 30];
    let max = *hops.iter().max().unwrap();
    for target in [1u64, 50, 200, 479, 480, 481, 1000, 12345] {
        let track = synthesize_route(&hops, target).unwrap();
        let d = walked(&hops, &track);
        assert!(d >= target);
        assert!(d < target + max);
        assert!(walked(&hops, &track[..track.len() - 1]) < target);
    }
}

#[test]
fn route_of_one_vertex_with_no_distance_fails() {
    assert_eq!(synthesize_route(&vec![0], 5), Err(RouteError::NoDistance));
    assert_eq!(synthesize_route(&vec![0, 0, 0], 1), Err(RouteError::NoDistance));
}

#[test]
fn route_of_empty_template_fails() {
    assert_eq!(synthesize_route(&vec![], 5), Err(RouteError::EmptyTemplate));
    assert_eq!(synthesize_route(&vec![], 0), Err(RouteError::EmptyTemplate));
}

#[test]
fn route_with_only_a_closing_hop_loops() {
    // Two vertices at the same place, and a closing hop that is not zero.
    assert_eq!(synthesize_route(&vec![4, 0], 5), Ok(vec![0, 1, 0, 1, 0]));
}
