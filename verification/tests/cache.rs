use swiftdns::cache::Cache;
use swiftdns::dns::resolver::{DnsAnswer, DnsQuestion, DnsResponse};

fn question(name: &str, record_type: u16) -> DnsQuestion {
    DnsQuestion { name: name.to_string(), record_type }
}

fn record(name: &str, ttl: u32, data: &str) -> DnsAnswer {
    DnsAnswer { domain_name: name.to_string(), record_type: 1, ttl, data: data.to_string() }
}

fn response(answers: Vec<DnsAnswer>) -> DnsResponse {
    DnsResponse {
        status: 0,
        tc: false,
        rd: true,
        ra: true,
        ad: false,
        cd: false,
        question: None,
        answer: answers,
        authority: None,
    }
}

#[test]
fn new_cache_holds_nothing() {
    let mut cache = Cache::new();
    assert!(cache.get_at(&question("example.com", 1), 0).is_none());
    assert!(!cache.contains(&question("example.com", 1)));
}

#[test]
fn entry_is_returned_within_its_ttl() {
    let mut cache = Cache::new();
    let stored = response(vec![record("example.com", 300, "93.184.216.34")]);
    cache.set_at(question("example.com", 1), &stored, 1_000);
    let entry = cache.get_at(&question("example.com", 1), 1_000).unwrap();
    assert_eq!(entry.valid_until, 1_300);
    assert_eq!(entry.response.answer.len(), 1);
    assert_eq!(entry.response.answer[0].data, "93.184.216.34");
    assert_eq!(entry.response.answer[0].ttl, 300);
    assert_eq!(entry.response.answer[0].domain_name, "example.com");
    assert!(entry.response.rd);
    assert!(cache.get_at(&question("example.com", 1), 1_299).is_some());
}

#[test]
fn entry_runs_out_when_its_ttl_has_passed() {
    let mut cache = Cache::new();
    let stored = response(vec![record("example.com", 300, "93.184.216.34")]);
    cache.set_at(question("example.com", 1), &stored, 1_000);
    assert!(cache.get_at(&question("example.com", 1), 1_300).is_none());
    assert!(!cache.contains(&question("example.com", 1)));
    // gone for good, even for an earlier instant
    assert!(cache.get_at(&question("example.com", 1), 1_000).is_none());
}

#[test]
fn stale_entry_stays_until_it_is_read() {
    let mut cache = Cache::new();
    let stored = response(vec![record("example.com", 300, "93.184.216.34")]);
    cache.set_at(question("example.com", 1), &stored, 1_000);
    cache.set_at(question("other.org", 1), &response(vec![record("other.org", 5, "1.2.3.4")]), 1_000);
    assert!(cache.get_at(&question("example.com", 1), 1_301).is_none());
    assert!(cache.contains(&question("other.org", 1)));
    assert!(!cache.contains(&question("example.com", 1)));
}

#[test]
fn ttl_is_that_of_the_first_record() {
    let mut cache = Cache::new();
    let stored = response(vec![
        record("example.com", 10, "93.184.216.34"),
        record("example.com", 1_000, "93.184.216.35"),
    ]);
    cache.set_at(question("example.com", 1), &stored, 50);
    assert_eq!(cache.get_at(&question("example.com", 1), 59).unwrap().valid_until, 60);
    assert!(cache.get_at(&question("example.com", 1), 60).is_none());
}

#[test]
fn answer_set_without_records_is_not_stored() {
    let mut cache = Cache::new();
    cache.set_at(question("example.com", 1), &response(vec![]), 1_000);
    assert!(!cache.contains(&question("example.com", 1)));
    assert!(cache.get_at(&question("example.com", 1), 1_000).is_none());
}

#[test]
fn answer_set_without_records_leaves_the_old_entry() {
    let mut cache = Cache::new();
    cache.set_at(question("example.com", 1), &response(vec![record("example.com", 300, "1.1.1.1")]), 0);
    cache.set_at(question("example.com", 1), &response(vec![]), 10);
    assert_eq!(cache.get_at(&question("example.com", 1), 20).unwrap().response.answer[0].data, "1.1.1.1");
}

#[test]
fn later_set_replaces_the_entry() {
    let mut cache = Cache::new();
    cache.set_at(question("example.com", 1), &response(vec![record("example.com", 300, "1.1.1.1")]), 0);
    cache.set_at(question("example.com", 1), &response(vec![record("example.com", 60, "2.2.2.2")]), 100);
    let entry = cache.get_at(&question("example.com", 1), 120).unwrap();
    assert_eq!(entry.response.answer[0].data, "2.2.2.2");
    assert_eq!(entry.valid_until, 160);
    assert!(cache.get_at(&question("example.com", 1), 160).is_none());
}

#[test]
fn questions_differ_by_name_and_by_type() {
    let mut cache = Cache::new();
    cache.set_at(question("example.com", 1), &response(vec![record("example.com", 300, "1.1.1.1")]), 0);
    assert!(cache.get_at(&question("example.com", 28), 1).is_none());
    assert!(cache.get_at(&question("example.org", 1), 1).is_none());
    assert!(cache.get_at(&question("Example.com", 1), 1).is_none());
    assert!(cache.get_at(&question("example.com", 1), 1).is_some());
}

#[test]
fn zero_ttl_is_stale_at_once() {
    let mut cache = Cache::new();
    cache.set_at(question("example.com", 1), &response(vec![record("example.com", 0, "1.1.1.1")]), 7);
    assert!(cache.contains(&question("example.com", 1)));
    assert!(cache.get_at(&question("example.com", 1), 7).is_none());
    assert!(!cache.contains(&question("example.com", 1)));
}

#[test]
fn largest_instant_and_ttl_do_not_overflow() {
    let mut cache = Cache::new();
    let stored = response(vec![record("example.com", u32::MAX, "1.1.1.1")]);
    cache.set_at(question("example.com", 1), &stored, i64::MAX);
    let entry = cache.get_at(&question("example.com", 1), i64::MAX).unwrap();
    assert_eq!(entry.valid_until, i64::MAX as i128 + u32::MAX as i128);
}

#[test]
fn negative_instants_are_instants_too() {
    let mut cache = Cache::new();
    cache.set_at(question("example.com", 1), &response(vec![record("example.com", 10, "1.1.1.1")]), -100);
    assert!(cache.get_at(&question("example.com", 1), -91).is_some());
    assert!(cache.get_at(&question("example.com", 1), -90).is_none());
}

#[test]
fn many_entries_are_kept_apart() {
    let mut cache = Cache::new();
    for i in 0..50u32 {
        let name = format!("host{i}.example.com");
        cache.set_at(question(&name, 1), &response(vec![record(&name, 100 + i, "1.1.1.1")]), 0);
    }
    for i in 0..50u32 {
        let name = format!("host{i}.example.com");
        let entry = cache.get_at(&question(&name, 1), 99).unwrap();
        assert_eq!(entry.valid_until, 100 + i as i128);
        assert_eq!(entry.response.answer[0].domain_name, name);
    }
    assert!(cache.get_at(&question("host7.example.com", 1), 107).is_none());
    assert!(cache.get_at(&question("host8.example.com", 1), 107).is_some());
}

#[test]
fn set_and_get_read_the_clock() {
    let mut cache = Cache::new();
    cache.set(question("example.com", 1), &response(vec![record("example.com", 300, "1.1.1.1")]));
    assert_eq!(cache.get(&question("example.com", 1)).unwrap().response.answer[0].data, "1.1.1.1");
    cache.set(question("gone.example.com", 1), &response(vec![record("gone.example.com", 0, "1.1.1.1")]));
    assert!(cache.get(&question("gone.example.com", 1)).is_none());
    // the clock is well after the year 2001 and before the year 2286
    let entry = cache.get(&question("example.com", 1)).unwrap();
    assert!(entry.valid_until > 1_000_000_000 && entry.valid_until < 10_000_000_000);
}

#[test]
fn entry_clone_is_equal_in_every_field() {
    let mut cache = Cache::new();
    let stored = DnsResponse {
        status: 3,
        tc: true,
        rd: false,
        ra: true,
        ad: true,
        cd: true,
        question: Some(vec![question("example.com", 28)]),
        answer: vec![DnsAnswer {
            domain_name: "example.com".to_string(),
            record_type: 28,
            ttl: 5,
            data: "2606:2800:220:1::1".to_string(),
        }],
        authority: Some(vec![record("a.iana-servers.net", 9, "199.43.135.53")]),
    };
    cache.set_at(question("example.com", 28), &stored, 0);
    let found = cache.get_at(&question("example.com", 28), 1).unwrap().response;
    assert_eq!(found.status, 3);
    assert!(found.tc && !found.rd && found.ra && found.ad && found.cd);
    let asked = found.question.unwrap();
    assert_eq!(asked.len(), 1);
    assert_eq!(asked[0].name, "example.com");
    assert_eq!(asked[0].record_type, 28);
    assert_eq!(found.answer[0].record_type, 28);
    assert_eq!(found.answer[0].data, "2606:2800:220:1::1");
    let authority = found.authority.unwrap();
    assert_eq!(authority[0].domain_name, "a.iana-servers.net");
    assert_eq!(authority[0].ttl, 9);
}
