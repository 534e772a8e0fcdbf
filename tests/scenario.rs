use sfi_client::auth::{
    login_response, probe_response, AuthAgent, Call, ProbeOutcome, Request, UserLogin,
};
use sfi_client::auth_state::AuthState;
use sfi_client::messages::{DataAgentRequest, DataAgentResponse};
use sfi_client::model::{Inventory, UserInfo};
use sfi_client::store::{DataAgent, Msg as StoreMsg};

const UI: u64 = 1;
const STORE: u64 = 2;
const U1: u128 = 0x1111;
const I1: u128 = 0x2222;
const T1: u128 = 0x3333;

fn run_call(auth: &mut AuthAgent, store: &mut DataAgent, req: Request, reply: Result<UserInfo, String>) -> AuthState {
    let call = auth.handle_input(req);
    let kind = call.kind();
    let started = auth.call_started(kind, Ok(()));
    assert_eq!(started.len(), 2);
    let msg = match call {
        Call::Probe => probe_response(match reply {
            Ok(u) => ProbeOutcome::Known(u),
            Err(_) => ProbeOutcome::Rejected,
        }),
        _ => login_response(reply),
    };
    let out = auth.update(msg);
    for (to, st) in out {
        if to == STORE {
            store.update(StoreMsg::NewAuthState(st));
        }
    }
    auth.state().clone()
}

#[test]
fn empty_storage_login_create_and_delete() {
    let mut auth = AuthAgent::create();
    auth.connected(UI);
    auth.connected(STORE);
    let mut store = DataAgent::create(None, vec![]);
    store.connected(UI);
    assert!(store.inventories().is_empty());

    let st = run_call(&mut auth, &mut store, Request::GetAuthStatus, Err("no session".to_string()));
    assert_eq!(st, AuthState::Initial);

    let user = UserInfo { uuid: U1, username: "a".to_string() };
    let creds = UserLogin { username: "a".to_string(), password: "x".to_string() };
    let st = run_call(&mut auth, &mut store, Request::Login(creds), Ok(user.clone()));
    assert_eq!(st, AuthState::LoggedIn(user.clone()));
    assert_eq!(store.auth_state(), &AuthState::LoggedIn(user));

    let out = store.handle_input(DataAgentRequest::CreateInventory("Garage".to_string()), UI, I1);
    assert!(out.persist);
    let expected = Inventory {
        uuid: I1,
        name: "Garage".to_string(),
        owner: U1,
        admins: vec![],
        writables: vec![],
        readables: vec![],
        items: vec![],
    };
    assert_eq!(
        out.replies,
        vec![
            (UI, DataAgentResponse::NewInventoryUuid(I1)),
            (UI, DataAgentResponse::Inventories(vec![expected])),
        ]
    );

    let out = store.handle_input(
        DataAgentRequest::CreateItem(I1, "Drill".to_string(), Some("123".to_string())),
        UI,
        T1,
    );
    assert_eq!(out.replies[0], (UI, DataAgentResponse::NewItemUuid(T1)));

    let out = store.handle_input(DataAgentRequest::GetItem(I1, T1), UI, 0);
    assert!(!out.persist);
    match &out.replies[..] {
        [(UI, DataAgentResponse::Item(item))] => {
            assert_eq!(item.name, "Drill");
            assert_eq!(item.ean, Some("123".to_string()));
            assert_eq!(item.inventory_uuid, I1);
        }
        other => panic!("unexpected replies {:?}", other),
    }

    let out = store.handle_input(DataAgentRequest::DeleteInventory(I1), UI, 0);
    assert!(out.persist);
    assert_eq!(
        out.replies,
        vec![
            (UI, DataAgentResponse::DeletedInventory(I1)),
            (UI, DataAgentResponse::Inventories(vec![])),
        ]
    );
}
