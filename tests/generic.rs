use castable::{Cast, Heap, Hierarchy, Object, TypeIdent};

#[derive(Clone, Debug, PartialEq)]
enum Staff {
    Person { name: String },
    Employee { hours: f64, pay: f64 },
    Salesperson { sales: u32 },
}

struct Types {
    h: Hierarchy,
    person: TypeIdent,
    employee: TypeIdent,
    salesperson: TypeIdent,
}

fn staff_types() -> Types {
    let mut h = Hierarchy::new();
    let person = h.declare(TypeIdent::base()).unwrap();
    let employee = h.declare(person).unwrap();
    let salesperson = h.declare(employee).unwrap();
    Types { h, person, employee, salesperson }
}

fn employee(t: &Types, name: &str, hours: f64, pay: f64) -> Object<Staff> {
    Object::new()
        .inherit(&t.h, t.person, Staff::Person { name: name.to_string() })
        .unwrap()
        .inherit(&t.h, t.employee, Staff::Employee { hours, pay })
        .unwrap()
}

fn inspect_employee(heap: &Heap<Staff>, t: &Types, e: &Cast) {
    let name = match heap.fields(&heap.upcast(e, t.person).unwrap()) {
        Some(Staff::Person { name }) => name.clone(),
        other => panic!("not a person: {:?}", other),
    };
    let hours = match heap.fields(e) {
        Some(Staff::Employee { hours, .. }) => *hours,
        other => panic!("not an employee: {:?}", other),
    };
    println!("{} has worked {} hours this week", name, hours);
}

#[test]
fn generic_casting() {
    let t = staff_types();
    let mut heap = Heap::new();
    // a salesperson held as an employee
    let obj = employee(&t, "John 'Lazy-Worker' Doe", 12.5, 15.25)
        .inherit(&t.h, t.salesperson, Staff::Salesperson { sales: 4 })
        .unwrap();
    let g: Cast = heap.link(obj).cast_as(t.employee);
    // it can be cast as Salesperson
    assert!(heap.downcast(&g, t.salesperson).is_some());
    inspect_employee(&heap, &t, &g);
    // a plain employee in the same kind of handle
    let g: Cast = heap.link(employee(&t, "Billy 'Hard-Worker' Smith", 42.0, 16.15)).cast_as(t.employee);
    // it cannot be cast as Salesperson
    assert!(heap.downcast(&g, t.salesperson).is_none());
    inspect_employee(&heap, &t, &g);
}
