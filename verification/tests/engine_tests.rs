use distributed_edge_cdn_simulator::{
    Content, EdgeNode, NetworkSimulator, PlacementOutcome, Request, CDN,
};

fn node(id: &str, capacity: usize) -> EdgeNode {
    EdgeNode { id: id.to_string(), capacity, stored_content: vec![] }
}

#[test]
fn test_content_distribution() {
    let mut cdn = CDN::new();
    let _network = NetworkSimulator::new(50, 20);

    cdn.add_edge_node(EdgeNode {
        id: "node1".to_string(),
        capacity: 1000,
        stored_content: vec![],
    });

    let content = Content { id: "video1".to_string(), size: 100 };

    cdn.optimized_distribute_content(content.clone());

    assert_eq!(cdn.node(0).stored_content.len(), 1);
    assert_eq!(cdn.node(0).stored_content[0].id, "video1");
}

#[test]
fn test_request_handling() {
    let mut cdn = CDN::new();
    let _network = NetworkSimulator::new(50, 20);

    cdn.add_edge_node(EdgeNode {
        id: "node1".to_string(),
        capacity: 1000,
        stored_content: vec![Content { id: "video1".to_string(), size: 100 }],
    });

    let request = Request {
        content_id: "video1".to_string(),
        origin: "user1".to_string(),
    };

    let result = cdn.handle_request(request);
    assert_eq!(result, Some("node1".to_string()));
}

#[test]
fn placement_then_resolution_scenario() {
    let mut cdn = CDN::new();
    cdn.add_edge_node(node("node1", 1000));

    let outcome =
        cdn.optimized_distribute_content(Content { id: "video1".to_string(), size: 100 });
    assert_eq!(outcome, PlacementOutcome::Placed("node1".to_string()));
    assert_eq!(cdn.node(0).capacity, 900);
    assert_eq!(cdn.node(0).stored_content.len(), 1);

    let result = cdn.handle_request(Request {
        content_id: "video1".to_string(),
        origin: "user1".to_string(),
    });
    assert_eq!(result, Some("node1".to_string()));
}

#[test]
fn load_balancing_keeps_counts_within_one() {
    let mut cdn = CDN::new();
    cdn.add_edge_node(node("node1", 1000));
    cdn.add_edge_node(node("node2", 1000));

    for i in 0..10 {
        let outcome = cdn.optimized_distribute_content(Content {
            id: format!("video{}", i),
            size: 100,
        });
        assert!(matches!(outcome, PlacementOutcome::Placed(_)));
        let a = cdn.node(0).stored_content.len() as i64;
        let b = cdn.node(1).stored_content.len() as i64;
        assert!((a - b).abs() <= 1);
    }
    assert_eq!(cdn.node(0).stored_content.len(), 5);
    assert_eq!(cdn.node(1).stored_content.len(), 5);
}

#[test]
fn oversized_content_is_not_placed_and_mutates_nothing() {
    let mut cdn = CDN::new();
    cdn.add_edge_node(node("node1", 300));
    cdn.add_edge_node(node("node2", 500));

    let outcome =
        cdn.optimized_distribute_content(Content { id: "huge".to_string(), size: 501 });
    assert_eq!(outcome, PlacementOutcome::NotPlaced);
    assert_eq!(cdn.node_count(), 2);
    assert_eq!(cdn.node(0).capacity, 300);
    assert_eq!(cdn.node(1).capacity, 500);
    assert_eq!(cdn.node(0).stored_content.len(), 0);
    assert_eq!(cdn.node(1).stored_content.len(), 0);
}

#[test]
fn placement_skips_ineligible_node_even_if_less_loaded() {
    let mut cdn = CDN::new();
    // node1 is less loaded but cannot fit the content.
    cdn.add_edge_node(node("node1", 50));
    let mut loaded = node("node2", 1000);
    loaded.stored_content.push(Content { id: "old1".to_string(), size: 10 });
    loaded.stored_content.push(Content { id: "old2".to_string(), size: 10 });
    cdn.add_edge_node(loaded);

    let chosen = cdn.choose_best_node(&Content { id: "clip".to_string(), size: 100 });
    assert_eq!(chosen.unwrap().id, "node2");

    let outcome =
        cdn.optimized_distribute_content(Content { id: "clip".to_string(), size: 100 });
    assert_eq!(outcome, PlacementOutcome::Placed("node2".to_string()));
}

#[test]
fn tie_break_picks_first_node_repeatedly() {
    for _ in 0..5 {
        let mut cdn = CDN::new();
        cdn.add_edge_node(node("node1", 1000));
        cdn.add_edge_node(node("node2", 1000));
        let chosen = cdn.choose_best_node(&Content { id: "clip".to_string(), size: 100 });
        assert_eq!(chosen.unwrap().id, "node1");
    }
}

#[test]
fn resolving_unknown_id_is_not_found() {
    let mut cdn = CDN::new();
    cdn.add_edge_node(node("node1", 1000));
    cdn.optimized_distribute_content(Content { id: "video1".to_string(), size: 100 });

    let result = cdn.handle_request(Request {
        content_id: "missing".to_string(),
        origin: "user1".to_string(),
    });
    assert_eq!(result, None);
}

#[test]
fn resolution_returns_first_node_in_insertion_order() {
    let mut cdn = CDN::new();
    let mut first = node("node1", 1000);
    first.stored_content.push(Content { id: "video1".to_string(), size: 100 });
    let mut second = node("node2", 1000);
    second.stored_content.push(Content { id: "video1".to_string(), size: 100 });
    cdn.add_edge_node(first);
    cdn.add_edge_node(second);

    let result = cdn.handle_request(Request {
        content_id: "video1".to_string(),
        origin: "user1".to_string(),
    });
    assert_eq!(result, Some("node1".to_string()));
}

#[test]
fn capacity_tracks_sum_of_placed_sizes() {
    let mut cdn = CDN::new();
    cdn.add_edge_node(node("node1", 1000));
    let sizes = [100usize, 250, 30];
    let mut placed = 0usize;
    for (i, size) in sizes.iter().enumerate() {
        cdn.optimized_distribute_content(Content { id: format!("video{}", i), size: *size });
        placed += size;
        assert_eq!(cdn.node(0).capacity, 1000 - placed);
    }
}
