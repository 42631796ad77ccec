use stubr::fields::{HttpQueryParamsStub, HttpReqHeadersStub};
use stubr::request_stub::RequestStub;
use stubr::response::{ResponseBody, ResponseStub};
use stubr::stub::{
    compile_in_order, priorities_of, ranks_behind, register_stubs, registration_order, Config,
    JsonStub,
};
use stubr::url::HttpUrl;

fn document(priority: Option<u32>, path: Option<&str>, status: u16) -> JsonStub {
    JsonStub {
        id: None,
        uuid: None,
        priority,
        request: RequestStub {
            method: None,
            url: HttpUrl { url_path: path.map(String::from), ..Default::default() },
            headers: HttpReqHeadersStub::none(),
            queries: HttpQueryParamsStub::none(),
            body: None,
            jwt: None,
        },
        response: ResponseStub { status, headers: Vec::new(), body: ResponseBody::Empty, delay_ms: None },
    }
}

#[test]
fn lower_priority_number_registers_first() {
    assert_eq!(registration_order(&vec![Some(5), Some(1), Some(3)]), vec![1, 2, 0]);
    assert_eq!(registration_order(&vec![Some(0), Some(u32::MAX)]), vec![0, 1]);
    assert_eq!(registration_order(&vec![Some(u32::MAX), Some(0)]), vec![1, 0]);
}

#[test]
fn missing_priority_registers_last() {
    assert_eq!(registration_order(&vec![None, Some(9), None, Some(1)]), vec![3, 1, 0, 2]);
    assert_eq!(registration_order(&vec![None, Some(u32::MAX)]), vec![1, 0]);
    assert_eq!(registration_order(&vec![None, None, None]), vec![0, 1, 2]);
}

#[test]
fn equal_priorities_keep_the_order_of_discovery() {
    assert_eq!(registration_order(&vec![Some(2), Some(1), Some(2), Some(1), Some(2)]), vec![1, 3, 0, 2, 4]);
    assert_eq!(registration_order(&vec![Some(1), Some(1)]), vec![0, 1]);
}

#[test]
fn no_stub_gives_no_order() {
    assert_eq!(registration_order(&Vec::new()), Vec::<usize>::new());
    assert_eq!(registration_order(&vec![None]), vec![0]);
}

#[test]
fn rank_comparison() {
    assert!(ranks_behind(Some(2), Some(1)));
    assert!(!ranks_behind(Some(1), Some(1)));
    assert!(!ranks_behind(Some(1), Some(2)));
    assert!(ranks_behind(None, Some(u32::MAX)));
    assert!(!ranks_behind(Some(u32::MAX), None));
    assert!(!ranks_behind(None, None));
}

#[test]
fn stubs_are_mounted_in_order_and_bad_ones_skipped() {
    let stubs = vec![
        document(None, Some("/last"), 201),
        document(Some(2), Some("/second"), 202),
        document(Some(1), None, 203),
        document(Some(1), Some("/first"), 204),
        document(Some(2), Some("/third"), 205),
    ];
    assert_eq!(priorities_of(&stubs), vec![None, Some(2), Some(1), Some(1), Some(2)]);
    let mounted = register_stubs(&stubs, &Config { port: None, verbose: Some(true) });
    let places: Vec<usize> = mounted.iter().map(|m| m.place).collect();
    assert_eq!(places, vec![3, 1, 4, 0]);
    let statuses: Vec<u16> = mounted.iter().map(|m| m.mock.respond().status).collect();
    assert_eq!(statuses, vec![204, 202, 205, 201]);
}

#[test]
fn nothing_valid_mounts_nothing() {
    let stubs = vec![document(Some(1), None, 200), document(None, None, 200)];
    assert!(register_stubs(&stubs, &Config::default()).is_empty());
    assert!(register_stubs(&Vec::new(), &Config::default()).is_empty());
    let stubs = vec![document(None, Some("/a"), 200)];
    assert_eq!(compile_in_order(&stubs, &vec![0, 0], &Config::default()).len(), 2);
}
