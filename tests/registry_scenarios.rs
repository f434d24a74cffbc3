use radix_server::model::{RoomConfig, User, UserId};
use radix_server::registry::{Registry, RegistryError};

fn user(id: &str, name: &str) -> User {
    User { id: UserId(id.to_string()), email: String::new(), name: name.to_string(), image: String::new() }
}

fn config(name: &str, public: bool, owner: User) -> RoomConfig {
    RoomConfig { name: name.to_string(), public, owner }
}

#[test]
fn duplicate_room_name() {
    let mut reg: Registry<u32> = Registry::new();
    let u1 = user("u1", "U1");
    let u2 = user("u2", "U2");
    assert!(reg.create_room(config("r", false, u1.clone()), 1).is_ok());
    assert!(matches!(reg.create_room(config("r", true, u2), 2), Err(RegistryError::DuplicateName)));
    assert!(reg.join(&u1.id, &"r".to_string()).is_ok());
    assert!(matches!(reg.create_room(config("r2", true, u1.clone()), 3), Err(RegistryError::AlreadyConnected)));
    assert_eq!(reg.sink(&"r".to_string()), Some(&1));
    assert_eq!(reg.sink(&"r2".to_string()), None);
}

#[test]
fn join_and_leave() {
    let mut reg: Registry<u32> = Registry::new();
    let u1 = user("u1", "U1");
    assert!(matches!(reg.join(&u1.id, &"nope".to_string()), Err(RegistryError::NotFound)));
    reg.create_room(config("r", true, user("o", "O")), 7).unwrap_or(());
    assert!(reg.join(&u1.id, &"r".to_string()).is_ok());
    assert!(matches!(reg.join(&u1.id, &"r".to_string()), Err(RegistryError::AlreadyConnected)));
    reg.leave(&u1.id);
    reg.leave(&u1.id);
    assert!(reg.join(&u1.id, &"r".to_string()).is_ok());
}

#[test]
fn can_connect_reasons() {
    let mut reg: Registry<u32> = Registry::new();
    let u1 = user("u1", "U1");
    let c = reg.can_connect(&u1.id, &"r".to_string());
    assert!(!c.can_connect);
    assert_eq!(c.reason, "Room does not exist.");
    assert!(reg.create_room(config("r", true, user("o", "O")), 1).is_ok());
    let c = reg.can_connect(&u1.id, &"r".to_string());
    assert!(c.can_connect);
    assert_eq!(c.reason, "");
    assert!(reg.join(&u1.id, &"r".to_string()).is_ok());
    let c = reg.can_connect(&u1.id, &"r".to_string());
    assert!(!c.can_connect);
    assert_eq!(c.reason, "You are already connected to a room.");
}

#[test]
fn list_shows_public_rooms_only() {
    let mut reg: Registry<u32> = Registry::new();
    assert!(reg.create_room(config("a", true, user("o1", "Owner1")), 1).is_ok());
    assert!(reg.create_room(config("b", false, user("o2", "Owner2")), 2).is_ok());
    assert!(reg.create_room(config("c", true, user("o3", "Owner3")), 3).is_ok());
    let l = reg.list();
    let names: Vec<(String, String)> = l.iter().map(|r| (r.name.clone(), r.owner.name.clone())).collect();
    assert_eq!(names, vec![("a".to_string(), "Owner1".to_string()), ("c".to_string(), "Owner3".to_string())]);
    reg.remove_room(&"a".to_string());
    assert_eq!(reg.list().len(), 1);
    assert!(reg.create_room(config("a", true, user("o4", "Owner4")), 4).is_ok());
}
