use astra::actor_system::{Actor, Message};
use astra::backends::database::DatabaseBackend;
use astra::backends::storage::StorageBackend;
use astra::data_actor::DataActor;
use std::cell::RefCell;
use std::rc::Rc;

/// A store kept in memory under a name; clones share the stored string.
#[derive(Clone)]
struct MemoryBackend {
    name: String,
    stored: Rc<RefCell<Option<String>>>,
    cleanups: Rc<RefCell<usize>>,
}

impl MemoryBackend {
    fn new(name: &str) -> Self {
        MemoryBackend {
            name: name.to_string(),
            stored: Rc::new(RefCell::new(Some(String::new()))),
            cleanups: Rc::new(RefCell::new(0)),
        }
    }
}

impl StorageBackend for MemoryBackend {
    fn write(&mut self, data: &str) -> Result<(), String> {
        *self.stored.borrow_mut() = Some(data.to_string());
        Ok(())
    }

    fn read(&mut self) -> Result<String, String> {
        self.stored.borrow().clone().ok_or(format!("{} is missing", self.name))
    }

    fn cleanup(&mut self) -> Result<(), String> {
        *self.cleanups.borrow_mut() += 1;
        match self.stored.borrow_mut().take() {
            Some(_) => Ok(()),
            None => Err(format!("{} is missing", self.name)),
        }
    }
}

#[test]
fn test_data_actor() {
    let file_backend = MemoryBackend::new("data.txt");
    let mut actor = DataActor::new(file_backend);

    actor.write_to_backend("Hello, actor!").unwrap();
    let data = actor.read_from_backend().unwrap();
    assert_eq!(data, "Hello, actor!");
    actor.cleanup_backend().unwrap();
}

#[test]
fn data_actor_writes_regular_payloads_and_cleans_on_shutdown() {
    let backend = MemoryBackend::new("store");
    let mut actor = DataActor::new(backend.clone());
    assert_eq!(actor.receive(Message::Regular("first".to_string())), Ok(()));
    assert_eq!(actor.receive(Message::Regular("second".to_string())), Ok(()));
    assert_eq!(backend.stored.borrow().clone(), Some("second".to_string()));
    assert_eq!(actor.receive(Message::Shutdown), Ok(()));
    assert_eq!(backend.stored.borrow().clone(), None);
    assert!(actor.receive(Message::Shutdown).is_err());
    actor.cleanup();
    assert_eq!(*backend.cleanups.borrow(), 3);
}

#[test]
fn database_backend_stub() {
    let mut db = DatabaseBackend::new();
    assert_eq!(db.write("x"), Ok(()));
    assert_eq!(db.read(), Ok("data from db".to_string()));
    assert_eq!(db.cleanup(), Ok(()));
    let mut actor = DataActor::new(DatabaseBackend::default());
    assert_eq!(actor.read_from_backend(), Ok("data from db".to_string()));
}
