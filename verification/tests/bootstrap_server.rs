use rsnano_node::bootstrap_server::{
    process, process_account, process_blocks, process_frontiers, verify, AccountInfoReqPayload, AccountSummary,
    AscPullAckType, AscPullReq, AscPullReqType, BlocksReqPayload, ChainLink, ChainView, FrontiersReqPayload, HashType,
};
use rsnano_node::numbers::Hash256;

fn h(n: u128) -> Hash256 {
    Hash256::from_u128(n)
}

fn ledger() -> ChainView {
    let mut view = ChainView::new();
    let a = h(100);
    view.insert_block(h(1), ChainLink { account: a, successor: Some(h(2)) });
    view.insert_block(h(2), ChainLink { account: a, successor: Some(h(3)) });
    view.insert_block(h(3), ChainLink { account: a, successor: None });
    view.insert_account(a, AccountSummary { open_block: h(1), head: h(3), block_count: 3 });
    view.insert_account(h(300), AccountSummary { open_block: h(30), head: h(31), block_count: 2 });
    view.insert_account(h(200), AccountSummary { open_block: h(20), head: h(21), block_count: 2 });
    view.set_confirmed(a, h(2), 2);
    view
}

fn blocks(ack: AscPullAckType) -> Vec<Hash256> {
    match ack {
        AscPullAckType::Blocks(b) => b,
        _ => panic!("not a blocks response"),
    }
}

#[test]
fn requests_are_verified() {
    let blocks = |count| AscPullReq {
        id: 1,
        req_type: AscPullReqType::Blocks(BlocksReqPayload { start_type: HashType::Block, start: h(1), count }),
    };
    assert!(!verify(&blocks(0)));
    assert!(verify(&blocks(128)));
    assert!(!verify(&blocks(129)));
    let info = |target| AscPullReq {
        id: 1,
        req_type: AscPullReqType::AccountInfo(AccountInfoReqPayload { target, target_type: HashType::Account }),
    };
    assert!(!verify(&info(Hash256::zero())));
    assert!(verify(&info(h(5))));
    let frontiers = |count| AscPullReq {
        id: 1,
        req_type: AscPullReqType::Frontiers(FrontiersReqPayload { start: h(0), count }),
    };
    assert!(verify(&frontiers(1000)));
    assert!(!verify(&frontiers(1001)));
}

#[test]
fn blocks_follow_the_chain() {
    let view = ledger();
    let by_account = BlocksReqPayload { start_type: HashType::Account, start: h(100), count: 2 };
    let r = process_blocks(&view, 7, &by_account);
    assert_eq!(r.id, 7);
    assert_eq!(blocks(r.pull_type), vec![h(1), h(2)]);
    let by_block = BlocksReqPayload { start_type: HashType::Block, start: h(2), count: 10 };
    assert_eq!(blocks(process_blocks(&view, 7, &by_block).pull_type), vec![h(2), h(3)]);
    let unknown = BlocksReqPayload { start_type: HashType::Block, start: h(9), count: 10 };
    assert!(blocks(process_blocks(&view, 7, &unknown).pull_type).is_empty());
}

#[test]
fn account_info_by_account_or_block() {
    let view = ledger();
    let r = process_account(&view, 3, &AccountInfoReqPayload { target: h(3), target_type: HashType::Block });
    match r.pull_type {
        AscPullAckType::AccountInfo(p) => {
            assert_eq!(p.account, h(100));
            assert_eq!((p.account_open, p.account_head, p.account_block_count), (h(1), h(3), 3));
            assert_eq!((p.account_conf_frontier, p.account_conf_height), (h(2), 2));
        }
        _ => panic!("not an account info response"),
    }
    let r = process_account(&view, 3, &AccountInfoReqPayload { target: h(55), target_type: HashType::Account });
    match r.pull_type {
        AscPullAckType::AccountInfo(p) => {
            assert_eq!(p.account, h(55));
            assert_eq!(p.account_block_count, 0);
            assert_eq!(p.account_open, Hash256::zero());
        }
        _ => panic!("not an account info response"),
    }
}

#[test]
fn frontiers_start_at_the_given_account() {
    let view = ledger();
    let r = process_frontiers(&view, 4, &FrontiersReqPayload { start: h(150), count: 5 });
    match r.pull_type {
        AscPullAckType::Frontiers(f) => assert_eq!(f, vec![(h(200), h(21)), (h(300), h(31))]),
        _ => panic!("not a frontiers response"),
    }
    let r = process_frontiers(&view, 4, &FrontiersReqPayload { start: h(0), count: 1 });
    match r.pull_type {
        AscPullAckType::Frontiers(f) => assert_eq!(f, vec![(h(100), h(3))]),
        _ => panic!("not a frontiers response"),
    }
    let req = AscPullReq { id: 9, req_type: AscPullReqType::Frontiers(FrontiersReqPayload { start: h(250), count: 5 }) };
    let r = process(&view, &req);
    assert_eq!(r.id, 9);
    match r.pull_type {
        AscPullAckType::Frontiers(f) => assert_eq!(f, vec![(h(300), h(31))]),
        _ => panic!("not a frontiers response"),
    }
}
