use dns_mesh_check::executor::CheckOutcome;
use dns_mesh_check::inventory::{get_name_servers, Ipv4, NameServer};
use dns_mesh_check::matrix::{aggregate_results, any_failed, get_checks};

#[test]
fn inventory_holds_both_servers() {
    let servers = get_name_servers();
    assert_eq!(servers.len(), 2);
    assert_eq!(servers[0].name, "ns1.rhiyo.com.");
    assert_eq!(servers[0].address, Ipv4::new(173, 255, 245, 83));
    assert_eq!(servers[1].name, "ns2.rhiyo.com.");
    assert_eq!(servers[1].address, Ipv4::new(212, 71, 246, 209));
}

#[test]
fn matrix_is_full_cross_product_in_order() {
    let servers = get_name_servers();
    let checks = get_checks(&servers);

    // N = 2 servers yield exactly N * N = 4 checks, outer loop over query
    // sources, inner loop over targets.
    assert_eq!(checks.len(), 4);
    let expected: [(&str, &str, Ipv4); 4] = [
        ("ns1.rhiyo.com.", "ns1.rhiyo.com.", Ipv4::new(173, 255, 245, 83)),
        ("ns1.rhiyo.com.", "ns2.rhiyo.com.", Ipv4::new(212, 71, 246, 209)),
        ("ns2.rhiyo.com.", "ns1.rhiyo.com.", Ipv4::new(173, 255, 245, 83)),
        ("ns2.rhiyo.com.", "ns2.rhiyo.com.", Ipv4::new(212, 71, 246, 209)),
    ];
    for (k, (source, record, ip)) in expected.iter().enumerate() {
        assert_eq!(&checks[k].name_server.name, source);
        assert_eq!(&checks[k].record_to_request, record);
        assert_eq!(checks[k].expected_ip, *ip);
    }
    // Self-checks are included: source and target coincide on the diagonal.
    assert_eq!(checks[0].name_server.name, checks[0].record_to_request);
    assert_eq!(checks[3].name_server.name, checks[3].record_to_request);
}

#[test]
fn matrix_of_three_servers_has_nine_checks() {
    let mut servers = get_name_servers();
    servers.push(NameServer {
        address: Ipv4::new(10, 0, 0, 1),
        name: String::from("ns3.rhiyo.com."),
    });
    let checks = get_checks(&servers);
    assert_eq!(checks.len(), 9);
    // Check k queries server k / 3 for the record of server k % 3.
    for k in 0..9 {
        assert_eq!(checks[k].name_server.name, servers[k / 3].name);
        assert_eq!(checks[k].record_to_request, servers[k % 3].name);
        assert_eq!(checks[k].expected_ip, servers[k % 3].address);
    }
}

#[test]
fn matrix_of_empty_inventory_is_empty() {
    let checks = get_checks(&Vec::new());
    assert_eq!(checks.len(), 0);
}

#[test]
fn aggregation_pairs_checks_with_outcomes_in_order() {
    let servers = get_name_servers();
    let checks = get_checks(&servers);
    let outcomes = vec![
        CheckOutcome::Pass,
        CheckOutcome::Fail,
        CheckOutcome::Pass,
        CheckOutcome::Fail,
    ];
    let results = aggregate_results(checks, &outcomes);
    assert_eq!(results.len(), 4);
    for (k, result) in results.iter().enumerate() {
        assert_eq!(result.outcome, outcomes[k]);
        assert_eq!(result.check.name_server.name, servers[k / 2].name);
        assert_eq!(result.check.record_to_request, servers[k % 2].name);
    }
}

#[test]
fn any_failed_is_false_when_all_pass() {
    let servers = get_name_servers();
    let checks = get_checks(&servers);
    let outcomes: Vec<CheckOutcome> = checks.iter().map(|_| CheckOutcome::Pass).collect();
    let results = aggregate_results(checks, &outcomes);
    assert!(!any_failed(&results));
}

#[test]
fn any_failed_is_true_with_a_single_failure() {
    let servers = get_name_servers();
    let checks = get_checks(&servers);
    let outcomes = vec![
        CheckOutcome::Pass,
        CheckOutcome::Pass,
        CheckOutcome::Fail,
        CheckOutcome::Pass,
    ];
    let results = aggregate_results(checks, &outcomes);
    assert!(any_failed(&results));
}

#[test]
fn any_failed_is_false_for_no_results() {
    let results = aggregate_results(Vec::new(), &Vec::new());
    assert!(!any_failed(&results));
}
