use kvs::client::{
    change_outcome, get_outcome, get_request, read_reply, remove_request, set_request, terminate_outcome,
    terminate_request, write_request,
};
use kvs::engine::StoreFiles;
use kvs::errors::KvsError;
use kvs::protocol::{KvsCmdRequest, KvsServerReply, KvsServerReplyStatus};
use kvs::server::{arity_reply, change_reply, command_arity, KvsServer};
use kvs::store::KvStore;

fn s(text: &str) -> String {
    text.to_owned()
}

fn server() -> KvsServer<KvStore> {
    KvsServer::open("kvs", StoreFiles { data: Vec::new(), index: Vec::new(), now: 1 }).expect("the server opens")
}

fn ask(server: &mut KvsServer<KvStore>, request: &KvsCmdRequest) -> KvsServerReply {
    let sent = write_request(request).unwrap();
    let answered = server.handle_stream(&sent).unwrap().expect("a reply");
    read_reply(&answered).unwrap()
}

fn request(cmd: &str, argument: &[&str]) -> KvsCmdRequest {
    KvsCmdRequest { cmd: s(cmd), argument: argument.iter().map(|a| s(a)).collect() }
}

struct Client<'a> {
    server: &'a mut KvsServer<KvStore>,
}

impl Client<'_> {
    fn set(&mut self, key: String, value: String) -> Result<(), KvsError> {
        let reply = ask(self.server, &set_request(key.clone(), value));
        change_outcome(&reply, key)
    }

    fn get(&mut self, key: String) -> Result<Option<String>, KvsError> {
        let reply = ask(self.server, &get_request(key.clone()));
        get_outcome(reply, key)
    }

    fn remove(&mut self, key: String) -> Result<(), KvsError> {
        let reply = ask(self.server, &remove_request(key.clone()));
        change_outcome(&reply, key)
    }
}

#[test]
fn test_kv() {
    let mut server = server();
    let mut store = Client { server: &mut server };
    store.set("user.root.password".to_owned(), "archlinuxisthebest".to_owned()).unwrap();
    store.set("user.root.name".to_owned(), "系統管理員".to_owned()).unwrap();
    store.set("user.root.balance".to_owned(), "50000".to_owned()).unwrap();
    store.set("user.root.money".to_owned(), "100000".to_owned()).unwrap();
    store.remove("user.root.money".to_owned()).unwrap();
    store.set("user.root.balance".to_owned(), "0".to_owned()).unwrap();
    store.set("user.root.password".to_owned(), "archlinuxforever".to_owned()).unwrap();
    store.set("user.root.name".to_owned(), "神".to_owned()).unwrap();
    assert_eq!(store.get("user.root.name".to_owned()).unwrap(), Some("神".to_owned()));
    assert_eq!(store.get("user.root.password".to_owned()).unwrap(), Some("archlinuxforever".to_owned()));
    assert_eq!(store.get("user.root.balance".to_owned()).unwrap(), Some("0".to_owned()));
}

#[test]
fn wire_protocol() {
    let mut server = server();
    let reply = ask(&mut server, &request("GET", &["missing"]));
    assert_eq!(reply.result, None);
    assert_eq!(reply.status, KvsServerReplyStatus::Success);
    let reply = ask(&mut server, &request("SET", &["k", "v"]));
    assert_eq!(reply.result, None);
    assert_eq!(reply.status, KvsServerReplyStatus::Success);
    let reply = ask(&mut server, &request("GET", &["k"]));
    assert_eq!(reply.result, Some(s("v")));
    assert_eq!(reply.status, KvsServerReplyStatus::Success);
    let reply = ask(&mut server, &request("FOO", &[]));
    assert_eq!(reply.result, None);
    assert_eq!(reply.status, KvsServerReplyStatus::InvalidCommand);
    assert!(!server.need_termination());
    let reply = ask(&mut server, &request("KILL", &[]));
    assert_eq!(reply.result, None);
    assert_eq!(reply.status, KvsServerReplyStatus::Success);
    assert!(server.need_termination());
}

#[test]
fn each_command_takes_its_number_of_arguments() {
    assert_eq!(command_arity("GET"), Some(1));
    assert_eq!(command_arity("RM"), Some(1));
    assert_eq!(command_arity("REMOVE"), Some(1));
    assert_eq!(command_arity("DELETE"), Some(1));
    assert_eq!(command_arity("SET"), Some(2));
    assert_eq!(command_arity("KILL"), Some(0));
    assert_eq!(command_arity("get"), None);
    assert_eq!(command_arity(""), None);
}

#[test]
fn a_wrong_number_of_arguments_is_answered_with_a_text() {
    let mut server = server();
    let reply = ask(&mut server, &request("GET", &[]));
    assert_eq!(reply.status, KvsServerReplyStatus::InvalidArguments);
    assert_eq!(reply.result, Some(s("`GET` command required 1 argument, provided 0")));
    let reply = ask(&mut server, &request("SET", &["only"]));
    assert_eq!(reply.status, KvsServerReplyStatus::InvalidArguments);
    assert_eq!(reply.result, Some(s("`SET` command required 2 argument, provided 1")));
    let reply = ask(&mut server, &request("DELETE", &["a", "b", "c"]));
    assert_eq!(reply.status, KvsServerReplyStatus::InvalidArguments);
    assert_eq!(reply.result, Some(s("`DELETE` command required 1 argument, provided 3")));
    let reply = ask(&mut server, &request("KILL", &["now"]));
    assert_eq!(reply.status, KvsServerReplyStatus::InvalidArguments);
    assert_eq!(reply.result, Some(s("`KILL` command required 0 argument, provided 1")));
    assert!(!server.need_termination());
    let reply = arity_reply("RM", 1, 12);
    assert_eq!(reply.result, Some(s("`RM` command required 1 argument, provided 12")));
}

#[test]
fn the_three_names_of_remove_do_the_same() {
    for name in ["RM", "REMOVE", "DELETE"] {
        let mut server = server();
        let reply = ask(&mut server, &request(name, &["k"]));
        assert_eq!(reply.status, KvsServerReplyStatus::KeyNotFound);
        assert_eq!(reply.result, None);
        ask(&mut server, &request("SET", &["k", "v"]));
        let reply = ask(&mut server, &request(name, &["k"]));
        assert_eq!(reply.status, KvsServerReplyStatus::Success);
        let reply = ask(&mut server, &request("GET", &["k"]));
        assert_eq!(reply.result, None);
        assert_eq!(reply.status, KvsServerReplyStatus::Success);
        assert_eq!(server.store().get(s("k")).unwrap(), None);
    }
}

#[test]
fn bytes_that_are_no_request_get_no_reply() {
    let mut server = server();
    assert!(server.handle_stream(&[]).unwrap().is_none());
    assert!(server.handle_stream(&[1, 2, 3]).unwrap().is_none());
    assert!(server.handle_stream(&[5, 0, 0, 0, 0]).unwrap().is_none());
    let reply = KvsServerReply { result: None, status: KvsServerReplyStatus::Success };
    assert!(server.handle_stream(&reply.encode().unwrap()).unwrap().is_none());
}

#[test]
fn a_server_is_opened_with_the_engine_of_its_name() {
    let files = || StoreFiles { data: Vec::new(), index: Vec::new(), now: 1 };
    assert!(KvsServer::<KvStore>::open("kvs", files()).is_ok());
    assert!(KvsServer::<KvStore>::open("KVS", files()).is_ok());
    assert!(matches!(KvsServer::<KvStore>::open("sled", files()), Err(KvsError::UnsupportedEngine)));
    assert!(matches!(KvsServer::<KvStore>::open("rocks", files()), Err(KvsError::UnsupportedEngine)));
    let broken = StoreFiles { data: vec![0], index: Vec::new(), now: 1 };
    assert!(matches!(KvsServer::<KvStore>::open("kvs", broken), Err(KvsError::InvalidDatabaseFormat)));
    let server = KvsServer::<KvStore>::open("kvs", files()).unwrap();
    assert!(!server.need_termination());
    let store = server.into_store();
    assert_eq!(store.get(s("a")).unwrap(), None);
}

#[test]
fn a_request_is_one_document() {
    let sent = write_request(&set_request(s("k"), s("v"))).unwrap();
    let mut expected: Vec<u8> = vec![0x33, 0, 0, 0];
    expected.push(0x02);
    expected.extend_from_slice(b"cmd\0");
    expected.extend_from_slice(&[4, 0, 0, 0, b'S', b'E', b'T', 0]);
    expected.push(0x04);
    expected.extend_from_slice(b"argument\0");
    expected.extend_from_slice(&[
        0x17, 0, 0, 0, 0x02, b'0', 0, 2, 0, 0, 0, b'k', 0, 0x02, b'1', 0, 2, 0, 0, 0, b'v', 0, 0,
    ]);
    expected.push(0);
    assert_eq!(sent, expected);
    let back = KvsCmdRequest::decode(&sent).unwrap();
    assert_eq!(back.cmd, "SET");
    assert_eq!(back.argument, vec![s("k"), s("v")]);
    let kill = KvsCmdRequest::decode(&write_request(&terminate_request()).unwrap()).unwrap();
    assert_eq!(kill.cmd, "KILL");
    assert!(kill.argument.is_empty());
    let get = get_request(s("a"));
    assert_eq!(get.cmd, "GET");
    assert_eq!(get.argument, vec![s("a")]);
    let remove = remove_request(s("a"));
    assert_eq!(remove.cmd, "REMOVE");
    assert_eq!(remove.argument, vec![s("a")]);
}

#[test]
fn a_reply_is_one_document() {
    let reply = KvsServerReply { result: Some(s("v")), status: KvsServerReplyStatus::KeyNotFound };
    let bytes = reply.encode().unwrap();
    let mut expected: Vec<u8> = vec![0x2b, 0, 0, 0];
    expected.push(0x02);
    expected.extend_from_slice(b"result\0");
    expected.extend_from_slice(&[2, 0, 0, 0, b'v', 0]);
    expected.push(0x02);
    expected.extend_from_slice(b"status\0");
    expected.extend_from_slice(&[12, 0, 0, 0]);
    expected.extend_from_slice(b"KeyNotFound\0");
    expected.push(0);
    assert_eq!(bytes, expected);
    let none = KvsServerReply { result: None, status: KvsServerReplyStatus::Success };
    let bytes = none.encode().unwrap();
    let mut expected: Vec<u8> = vec![0x21, 0, 0, 0];
    expected.push(0x0a);
    expected.extend_from_slice(b"result\0");
    expected.push(0x02);
    expected.extend_from_slice(b"status\0");
    expected.extend_from_slice(&[8, 0, 0, 0]);
    expected.extend_from_slice(b"Success\0");
    expected.push(0);
    assert_eq!(bytes, expected);
    for status in [
        KvsServerReplyStatus::Success,
        KvsServerReplyStatus::InvalidArguments,
        KvsServerReplyStatus::InvalidCommand,
        KvsServerReplyStatus::KeyNotFound,
        KvsServerReplyStatus::ServerInternalError,
    ] {
        let reply = KvsServerReply { result: None, status };
        let back = KvsServerReply::decode(&reply.encode().unwrap()).unwrap();
        assert_eq!(back.status, status);
        assert_eq!(back.result, None);
        assert_eq!(KvsServerReplyStatus::from_name(status.name()), Some(status));
    }
    assert_eq!(KvsServerReplyStatus::from_name("success"), None);
}

#[test]
fn the_client_reads_the_status() {
    let reply = |status| KvsServerReply { result: Some(s("text")), status };
    assert!(change_outcome(&reply(KvsServerReplyStatus::Success), s("k")).is_ok());
    match change_outcome(&reply(KvsServerReplyStatus::KeyNotFound), s("k")) {
        Err(KvsError::KeyNotExist(key)) => assert_eq!(key, "k"),
        other => panic!("expected KeyNotExist, got {:?}", other),
    }
    for status in [
        KvsServerReplyStatus::InvalidArguments,
        KvsServerReplyStatus::InvalidCommand,
        KvsServerReplyStatus::ServerInternalError,
    ] {
        assert!(matches!(change_outcome(&reply(status), s("k")), Err(KvsError::ServerError)));
        assert!(matches!(get_outcome(reply(status), s("k")), Err(KvsError::ServerError)));
        assert!(matches!(terminate_outcome(&reply(status)), Err(KvsError::ServerError)));
    }
    assert_eq!(get_outcome(reply(KvsServerReplyStatus::Success), s("k")).unwrap(), Some(s("text")));
    match get_outcome(reply(KvsServerReplyStatus::KeyNotFound), s("k")) {
        Err(KvsError::KeyNotExist(key)) => assert_eq!(key, "k"),
        other => panic!("expected KeyNotExist, got {:?}", other),
    }
    assert!(terminate_outcome(&reply(KvsServerReplyStatus::Success)).is_ok());
    assert!(matches!(terminate_outcome(&reply(KvsServerReplyStatus::KeyNotFound)), Err(KvsError::ServerError)));
    assert!(matches!(read_reply(&[1, 2, 3]), Err(KvsError::DeserializationError)));
}

#[test]
fn a_change_is_answered_with_how_it_ended() {
    assert_eq!(change_reply(&Ok(())).status, KvsServerReplyStatus::Success);
    assert_eq!(change_reply(&Err(KvsError::KeyNotExist(s("k")))).status, KvsServerReplyStatus::KeyNotFound);
    assert_eq!(change_reply(&Err(KvsError::InvalidDataEntry)).status, KvsServerReplyStatus::ServerInternalError);
    assert_eq!(
        change_reply(&Err(KvsError::IOError(s("disk")))).status,
        KvsServerReplyStatus::ServerInternalError
    );
    assert_eq!(change_reply(&Ok(())).result, None);
}
