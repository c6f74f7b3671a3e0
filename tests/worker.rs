use castable::{Hierarchy, Object, TypeIdent};

#[derive(Clone, Debug, PartialEq)]
enum Staff {
    Person { name: String },
    Worker { job: String },
}

#[test]
fn lib_general() {
    let mut h = Hierarchy::new();
    let person = h.declare(TypeIdent::base()).unwrap();
    let worker = h.declare(person).unwrap();
    let w = Object::new()
        .inherit(&h, person, Staff::Person { name: "John".to_string() })
        .unwrap()
        .inherit(&h, worker, Staff::Worker { job: "sales".to_string() })
        .unwrap();
    let name = match w.get(person) {
        Some(Staff::Person { name }) => name.clone(),
        other => panic!("not a person: {:?}", other),
    };
    let job = match w.get(worker) {
        Some(Staff::Worker { job }) => job.clone(),
        other => panic!("not a worker: {:?}", other),
    };
    let msg = format!("{} works in {}.", name, job);
    assert_eq!(msg, "John works in sales.");
}
