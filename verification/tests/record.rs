use boraxpr::record::{Dao, MemoryDao, Todo, WireTodo};

fn todo(text: &str) -> Todo {
    Todo { id: 0, text: text.to_string() }
}

#[test]
fn a_record_goes_on_the_wire_with_its_identifier_as_a_string() {
    let t = Todo { id: 9007199254740993, text: "beyond".to_string() };
    assert_eq!(
        t.to_wire(),
        WireTodo { id: "9007199254740993".to_string(), text: "beyond".to_string() }
    );
    let t = Todo { id: -5, text: String::new() };
    assert_eq!(t.to_wire(), WireTodo { id: "-5".to_string(), text: String::new() });
    assert_eq!(t.duplicate(), t);
}

#[test]
fn create_then_get_by_id() {
    let mut dao = MemoryDao::new();
    let made = dao.save(todo("hello")).unwrap();
    assert_eq!(made.text, "hello");
    assert_eq!(dao.get_by_id(made.id), Some(Todo { id: made.id, text: "hello".to_string() }));
}

#[test]
fn identifiers_rise_from_one_and_are_not_given_twice() {
    let mut dao = MemoryDao::new();
    assert_eq!(dao.save(Todo { id: 99, text: "a".to_string() }).unwrap().id, 1);
    assert_eq!(dao.save(todo("b")).unwrap().id, 2);
    assert_eq!(dao.delete(2).unwrap(), Todo { id: 2, text: "b".to_string() });
    assert_eq!(dao.save(todo("c")).unwrap().id, 3);
    assert_eq!(dao.get_by_id(2), None);
    assert_eq!(
        dao.get_all(),
        vec![Todo { id: 1, text: "a".to_string() }, Todo { id: 3, text: "c".to_string() }]
    );
}

#[test]
fn an_empty_service_has_nothing() {
    let mut dao = MemoryDao::new();
    assert_eq!(dao.get_all(), Vec::<Todo>::new());
    assert_eq!(dao.get_by_id(1), None);
    assert_eq!(dao.delete(1).unwrap_err().message, "no record has this identifier");
    assert_eq!(dao.update(1, todo("x")).unwrap_err().message, "no record has this identifier");
}

#[test]
fn update_replaces_the_text_and_keeps_the_identifier() {
    let mut dao = MemoryDao::new();
    dao.save(todo("one")).unwrap();
    dao.save(todo("two")).unwrap();
    let changed = dao.update(1, Todo { id: 50, text: "uno".to_string() }).unwrap();
    assert_eq!(changed, Todo { id: 1, text: "uno".to_string() });
    assert_eq!(dao.get_by_id(1), Some(Todo { id: 1, text: "uno".to_string() }));
    assert_eq!(dao.get_by_id(2), Some(Todo { id: 2, text: "two".to_string() }));
    assert_eq!(dao.get_by_id(50), None);
}

#[test]
fn a_service_that_ran_out_of_identifiers_says_so() {
    let mut dao = MemoryDao::starting_at(i64::MAX - 1);
    assert_eq!(dao.save(todo("last")).unwrap().id, i64::MAX - 1);
    assert_eq!(dao.save(todo("late")).unwrap_err().message, "no identifier is left");
    assert_eq!(dao.get_all().len(), 1);
    assert_eq!(MemoryDao::starting_at(-3).save(todo("first")).unwrap().id, 1);
}
