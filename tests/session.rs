use lqmy_desk::agent::{AgentContext, AuthRequest, AuthStep, DisconnectReq};
use lqmy_desk::jwt::JwtKeys;
use lqmy_desk::roster::{CrtlReq, CurInfo, CurUsersInfo, UserType};
use lqmy_desk::users::{parse_user_type, category_label, UserInfo, UserTable};

fn info(name: &str, serial: &str, uuid: &str) -> CurInfo {
    CurInfo {
        device_name: name.to_string(),
        device_id: serial.to_string(),
        user_type: UserType::Normal,
        uuid: uuid.to_string(),
    }
}

fn request(name: &str, serial: &str, password: &str, uuid: &str) -> AuthRequest {
    AuthRequest {
        device_name: name.to_string(),
        device_serial: serial.to_string(),
        password: password.to_string(),
        uuid: uuid.to_string(),
    }
}

fn agent_with_password(password: &str, users: UserTable) -> AgentContext {
    let mut a = AgentContext::new("wss://localhost:9876".to_string(), users);
    a.start();
    a.config.connection_password = password.to_string();
    a
}

fn table(records: &[(&str, &str, UserType)]) -> UserTable {
    let mut t = UserTable::new();
    for (name, serial, kind) in records {
        t.insert_record(UserInfo {
            device_name: name.to_string(),
            device_id: serial.to_string(),
            user_type: *kind,
        });
    }
    t
}

#[test]
fn roster_starts_empty_without_controller() {
    let r = CurUsersInfo::new(5);
    assert_eq!(r.len(), 0);
    assert_eq!(r.capacity(), 5);
    assert!(r.is_avail());
    assert!(!r.has_controller());
    assert_eq!(r.controller_index(), None);
}

#[test]
fn roster_rejects_beyond_capacity_and_duplicate_uuid() {
    let mut r = CurUsersInfo::new(2);
    r.add_new_cur_user(&info("A", "S1", "u1"));
    r.add_new_cur_user(&info("A again", "S1", "u1"));
    assert_eq!(r.len(), 1);
    r.add_new_cur_user(&info("B", "S2", "u2"));
    r.add_new_cur_user(&info("C", "S3", "u3"));
    assert_eq!(r.len(), 2);
    assert!(!r.is_avail());
    assert!(r.lookup_by_serial("S2"));
    assert!(!r.lookup_by_serial("S3"));
}

#[test]
fn roster_controller_follows_its_peer_on_delete() {
    let mut r = CurUsersInfo::new(5);
    r.add_new_cur_user(&info("A", "S1", "u1"));
    r.add_new_cur_user(&info("B", "S2", "u2"));
    r.add_new_cur_user(&info("C", "S3", "u3"));
    assert!(r.set_ptr_by_serial("S3"));
    assert_eq!(r.controller_index(), Some(2));
    assert!(r.delete_by_uuid("u1"));
    assert_eq!(r.controller_index(), Some(1));
    assert!(r.is_controller_by_uuid("u3".to_string()));
    assert!(r.delete_by_uuid("u3"));
    assert_eq!(r.controller_index(), None);
    assert!(!r.delete_by_uuid("u3"));
    assert_eq!(r.len(), 1);
    assert_eq!(r.get(0).uuid, "u2");
}

#[test]
fn roster_unknown_serial_clears_controller() {
    let mut r = CurUsersInfo::new(5);
    r.add_new_cur_user(&info("A", "S1", "u1"));
    assert!(r.set_ptr_by_serial("S1"));
    assert!(!r.set_ptr_by_serial("nope"));
    assert!(!r.has_controller());
    r.add_new_cur_user(&info("B", "S2", "u2"));
    assert!(!r.has_controller());
}

#[test]
fn roster_reset_and_revoke() {
    let mut r = CurUsersInfo::new(5);
    assert!(r.revoke_control().is_none());
    r.add_new_cur_user(&info("A", "S1", "u1"));
    r.set_ptr_by_serial("S1");
    let (target, ans) = r.revoke_control().unwrap();
    assert_eq!(target, "u1");
    assert_eq!(ans.status, "100");
    assert_eq!(ans.body, "控制权取回");
    assert!(!r.has_controller());
    r.reset();
    assert_eq!(r.len(), 0);
}

#[test]
fn user_table_add_update_delete() {
    let mut t = UserTable::new();
    assert!(t.add_device("Phone", "SN-1"));
    assert!(!t.add_device("Phone 2", "SN-1"));
    assert_eq!(t.len(), 1);
    let u = t.get_user_by_serial("SN-1").unwrap();
    assert_eq!(u.device_name, "Phone");
    assert_eq!(u.user_type, UserType::Normal);
    assert!(t.update_user_category("SN-1", "trusted"));
    assert_eq!(t.get_user_by_serial("SN-1").unwrap().user_type, UserType::Trusted);
    assert!(!t.update_user_category("SN-1", "bogus"));
    assert!(!t.update_user_category("SN-9", "regular"));
    let listed = t.transfer_userinfo_to_vue();
    assert_eq!(listed.len(), 1);
    assert_eq!(listed[0].user_type, "trusted");
    assert_eq!(listed[0].device_id, "SN-1");
    assert!(t.delete_user("SN-1"));
    assert!(!t.delete_user("SN-1"));
    assert!(t.get_user_by_serial("SN-1").is_none());
}

#[test]
fn category_words() {
    assert_eq!(parse_user_type("regular"), Some(UserType::Normal));
    assert_eq!(parse_user_type("blacklist"), Some(UserType::Blacklist));
    assert_eq!(parse_user_type("Trusted"), None);
    assert_eq!(category_label("trusted"), "可信");
    assert_eq!(category_label("regular"), "普通");
    assert_eq!(category_label("blacklist"), "黑名单");
    assert_eq!(category_label("x"), "未知");
}

#[test]
fn fresh_normal_user_admission() {
    let mut a = agent_with_password("abc12345", UserTable::new());
    let req = request("Phone-A", "SN-001", "abc12345", "u1");
    match a.begin_auth(&req) {
        AuthStep::Confirm => {}
        AuthStep::Done(r) => panic!("unexpected {:?}", r),
    }
    let (resp, persist) = a.finish_auth(&req, true);
    assert_eq!(resp.status, "200");
    assert!(persist);
    assert!(a.keys.validate_jwt(&resp.body));
    assert_eq!(a.roster.len(), 1);
    assert_eq!(a.roster.get(0).user_type, UserType::Normal);
    assert_eq!(a.roster.get(0).device_id, "SN-001");
    assert_eq!(a.users.get_user_by_serial("SN-001").unwrap().user_type, UserType::Normal);
}

#[test]
fn wrong_password_is_refused() {
    let mut a = agent_with_password("abc12345", UserTable::new());
    let req = request("Phone-A", "SN-001", "wrong", "u1");
    match a.begin_auth(&req) {
        AuthStep::Done(r) => {
            assert_eq!(r.status, "403");
            assert_eq!(r.body, "连接口令错误");
        }
        AuthStep::Confirm => panic!("no dialog expected"),
    }
    assert_eq!(a.roster.len(), 0);
}

#[test]
fn rejected_dialog_gives_403() {
    let mut a = agent_with_password("abc12345", UserTable::new());
    let req = request("Phone-A", "SN-001", "abc12345", "u1");
    assert!(matches!(a.begin_auth(&req), AuthStep::Confirm));
    let (resp, persist) = a.finish_auth(&req, false);
    assert_eq!(resp.status, "403");
    assert_eq!(resp.body, "连接被拒绝");
    assert!(!persist);
    assert_eq!(a.roster.len(), 0);
    assert!(matches!(a.begin_auth(&req), AuthStep::Confirm));
}

#[test]
fn blacklist_short_circuit() {
    let mut a = agent_with_password("abc12345", table(&[("Bad", "SN-002", UserType::Blacklist)]));
    let req = request("Bad", "SN-002", "abc12345", "u2");
    match a.begin_auth(&req) {
        AuthStep::Done(r) => {
            assert_eq!(r.status, "403");
            assert_eq!(r.body, "连接被拒绝");
        }
        AuthStep::Confirm => panic!("no dialog expected"),
    }
    assert_eq!(a.roster.len(), 0);
}

#[test]
fn trusted_user_admitted_without_dialog() {
    let mut a = agent_with_password("abc12345", table(&[("Mine", "SN-T", UserType::Trusted)]));
    let req = request("Mine", "SN-T", "", "ut");
    match a.begin_auth(&req) {
        AuthStep::Done(r) => {
            assert_eq!(r.status, "200");
            assert!(a.keys.validate_jwt(&r.body));
        }
        AuthStep::Confirm => panic!("no dialog expected"),
    }
    assert_eq!(a.roster.get(0).user_type, UserType::Trusted);
}

#[test]
fn single_flight() {
    let mut a = agent_with_password("abc12345", table(&[("P", "SN-003", UserType::Normal)]));
    let first = request("P", "SN-003", "abc12345", "u3a");
    let second = request("P", "SN-003", "abc12345", "u3b");
    assert!(matches!(a.begin_auth(&first), AuthStep::Confirm));
    match a.begin_auth(&second) {
        AuthStep::Done(r) => {
            assert_eq!(r.status, "202");
            assert_eq!(r.body, "请求已在处理，请稍后");
        }
        AuthStep::Confirm => panic!("second dialog"),
    }
    let (resp, persist) = a.finish_auth(&first, true);
    assert_eq!(resp.status, "200");
    assert!(!persist);
    assert_eq!(a.roster.len(), 1);
}

#[test]
fn full_roster_rejects() {
    let mut a = agent_with_password("pw", UserTable::new());
    for i in 0..5 {
        let req = request("P", &format!("S{}", i), "pw", &format!("u{}", i));
        assert!(matches!(a.begin_auth(&req), AuthStep::Confirm));
        assert_eq!(a.finish_auth(&req, true).0.status, "200");
    }
    let req = request("P", "S9", "pw", "u9");
    match a.begin_auth(&req) {
        AuthStep::Done(r) => {
            assert_eq!(r.status, "403");
            assert_eq!(r.body, "连接被拒绝");
        }
        AuthStep::Confirm => panic!("roster is full"),
    }
    assert_eq!(a.roster.len(), 5);
}

fn admit_trusted(a: &mut AgentContext, serial: &str, uuid: &str) -> String {
    match a.begin_auth(&request("P", serial, "", uuid)) {
        AuthStep::Done(r) => {
            assert_eq!(r.status, "200");
            r.body
        }
        AuthStep::Confirm => panic!("trusted"),
    }
}

#[test]
fn controller_rotation() {
    let mut a = agent_with_password(
        "pw",
        table(&[("P1", "P1", UserType::Trusted), ("P2", "P2", UserType::Trusted)]),
    );
    let jwt1 = admit_trusted(&mut a, "P1", "P1");
    let jwt2 = admit_trusted(&mut a, "P2", "P2");
    let ans = a.handle_control(&CrtlReq { jwt: jwt2, uuid: "P2".to_string(), device_serial: "P2".to_string() });
    assert_eq!(ans.status, "200");
    assert_eq!(ans.body, "获得控制权");
    let ans = a.handle_control(&CrtlReq { jwt: jwt1, uuid: "P1".to_string(), device_serial: "P1".to_string() });
    assert_eq!(ans.status, "400");
    assert_eq!(ans.body, "已有控制者");
    let (target, notice) = a.roster.revoke_control().unwrap();
    assert_eq!(target, "P2");
    assert_eq!(notice.status, "100");
    assert_eq!(notice.body, "控制权取回");
    assert!(!a.roster.has_controller());
}

#[test]
fn control_with_invalid_token_is_refused() {
    let mut a = agent_with_password("pw", table(&[("P1", "P1", UserType::Trusted)]));
    admit_trusted(&mut a, "P1", "P1");
    let ans = a.handle_control(&CrtlReq { jwt: "garbage".to_string(), uuid: "P1".to_string(), device_serial: "P1".to_string() });
    assert_eq!(ans.status, "400");
    assert!(!a.roster.has_controller());
}

#[test]
fn control_for_unknown_serial() {
    let mut a = agent_with_password("pw", UserTable::new());
    let ans = a.control_decision(true, "nobody");
    assert_eq!(ans.status, "400");
    assert_eq!(ans.body, "用户不存在");
}

#[test]
fn revoke_request_only_from_controller() {
    let mut a = agent_with_password("pw", table(&[("P1", "P1", UserType::Trusted), ("P2", "P2", UserType::Trusted)]));
    admit_trusted(&mut a, "P1", "P1");
    admit_trusted(&mut a, "P2", "P2");
    a.control_decision(true, "P2");
    assert!(a.revoke_decision(true, "P2"));
    assert!(!a.revoke_decision(true, "P1"));
    assert!(!a.revoke_decision(false, "P2"));
}

#[test]
fn peer_disconnect_needs_valid_token() {
    let mut a = agent_with_password("pw", table(&[("P1", "P1", UserType::Trusted)]));
    let jwt = admit_trusted(&mut a, "P1", "P1");
    let bad = DisconnectReq { jwt: "x".to_string(), device_serial: "P1".to_string() };
    assert!(!a.handle_disconnect(&bad, "P1"));
    assert_eq!(a.roster.len(), 1);
    let good = DisconnectReq { jwt, device_serial: "P1".to_string() };
    assert!(good.verify(&a.keys));
    assert!(a.handle_disconnect(&good, "P1"));
    assert_eq!(a.roster.len(), 0);
}

#[test]
fn local_disconnect() {
    let mut a = agent_with_password("pw", table(&[("P1", "P1", UserType::Trusted)]));
    admit_trusted(&mut a, "P1", "P1");
    assert!(a.disconnect_cur_user_by_uuid("P1"));
    assert!(!a.disconnect_cur_user_by_uuid("P1"));
    assert_eq!(lqmy_desk::agent::disconnect_notice().cmd, "disconnect");
}

#[test]
fn graceful_shutdown_and_restart() {
    let mut a = agent_with_password(
        "pw",
        table(&[("A", "A", UserType::Trusted), ("B", "B", UserType::Trusted), ("C", "C", UserType::Trusted)]),
    );
    let old = admit_trusted(&mut a, "A", "ua");
    admit_trusted(&mut a, "B", "ub");
    admit_trusted(&mut a, "C", "uc");
    let closed = a.stop();
    assert_eq!(closed, vec!["ua".to_string(), "ub".to_string(), "uc".to_string()]);
    assert_eq!(a.roster.len(), 0);
    assert!(!a.running);
    assert_eq!(a.config.connection_password, "Uninitia");
    a.start();
    assert!(a.running);
    assert!(!a.keys.validate_jwt(&old));
}

#[test]
fn token_of_another_run_is_rejected() {
    let run_a = JwtKeys { key: "key-a".to_string(), nonce: "nonce-a".to_string() };
    let run_b = JwtKeys { key: "key-a".to_string(), nonce: "nonce-b".to_string() };
    let token = run_a.generate_jwt("SN-1");
    assert!(run_a.validate_jwt(&token));
    assert!(!run_b.validate_jwt(&token));
    assert_ne!(token, "SN-1");
}

#[test]
fn token_is_deterministic_for_fixed_time() {
    let keys = JwtKeys { key: "k".to_string(), nonce: "n".to_string() };
    let t1 = keys.generate_jwt_at("SN-1", 1_000);
    let t2 = keys.generate_jwt_at("SN-1", 1_000);
    assert_eq!(t1, t2);
    assert_eq!(t1.split('.').count(), 3);
    assert_eq!(lqmy_desk::jwt::token_expiry(1_000), 4_600);
    assert_eq!(lqmy_desk::jwt::token_expiry(-5), 3_600);
}

#[test]
fn generated_secrets_are_alphanumeric() {
    let s = lqmy_desk::jwt::generate_secret();
    assert_eq!(s.chars().count(), 8);
    assert!(s.chars().all(|c| c.is_ascii_alphanumeric()));
    let mut a = AgentContext::new("x".to_string(), UserTable::new());
    assert!(!a.verify_password("abc"));
    a.generate_connection_password();
    let pw = a.config.connection_password.clone();
    assert_eq!(pw.chars().count(), 8);
    assert!(a.verify_password(&pw));
}

#[test]
fn agent_reset_and_registration() {
    let mut a = AgentContext::new("ws://a".to_string(), UserTable::new());
    assert_eq!(a.uuid, "尚未连接服务器");
    a.update_uuid("abc");
    assert_eq!(a.uuid, "abc");
    a.update_server_addr("ws://b".to_string());
    assert_eq!(a.config.server_address, "ws://b");
    a.reset_all_info();
    assert_eq!(a.uuid, "尚未连接服务器");
    assert_eq!(a.config.connection_password, "Uninitia");
}

#[test]
fn already_admitted_uuid_is_refused() {
    let mut a = agent_with_password("pw", table(&[("P1", "P1", UserType::Trusted)]));
    admit_trusted(&mut a, "P1", "u1");
    match a.begin_auth(&request("P1", "P1", "", "u1")) {
        AuthStep::Done(r) => {
            assert_eq!(r.status, "403");
            assert_eq!(r.body, "连接被拒绝");
        }
        AuthStep::Confirm => panic!("trusted"),
    }
    let req = request("New", "SN-9", "pw", "u1");
    assert!(matches!(a.begin_auth(&req), AuthStep::Confirm));
    let (resp, persist) = a.finish_auth(&req, true);
    assert_eq!(resp.status, "403");
    assert!(!persist);
    assert_eq!(a.roster.len(), 1);
}

#[test]
fn restart_changes_the_boot_nonce() {
    let mut a = AgentContext::new("ws://a".to_string(), UserTable::new());
    let before = a.keys.nonce.clone();
    a.start();
    assert_ne!(a.keys.nonce, before);
    let token = a.keys.generate_jwt("SN-1");
    assert!(a.keys.validate_jwt(&token));
    a.stop();
    a.start();
    assert!(!a.keys.validate_jwt(&token));
}
