use castable::{Cast, Heap, Hierarchy, Object, TypeIdent};

#[derive(Clone, Debug, PartialEq)]
enum Staff {
    Person { name: String },
    Employee { hours: f64, pay: f64 },
    Salesperson { sales: u32 },
}

struct Types {
    h: Hierarchy,
    person: TypeIdent,
    employee: TypeIdent,
    salesperson: TypeIdent,
}

fn staff_types() -> Types {
    let mut h = Hierarchy::new();
    let person = h.declare(TypeIdent::base()).unwrap();
    let employee = h.declare(person).unwrap();
    let salesperson = h.declare(employee).unwrap();
    Types { h, person, employee, salesperson }
}

fn salesperson(t: &Types, name: &str, hours: f64, pay: f64, sales: u32) -> Object<Staff> {
    Object::new()
        .inherit(&t.h, t.person, Staff::Person { name: name.to_string() })
        .unwrap()
        .inherit(&t.h, t.employee, Staff::Employee { hours, pay })
        .unwrap()
        .inherit(&t.h, t.salesperson, Staff::Salesperson { sales })
        .unwrap()
}

fn name(heap: &Heap<Staff>, t: &Types, c: &Cast) -> String {
    match heap.fields(&heap.upcast(c, t.person).unwrap()) {
        Some(Staff::Person { name }) => name.clone(),
        other => panic!("not a person: {:?}", other),
    }
}

fn hours_pay(heap: &Heap<Staff>, t: &Types, c: &Cast) -> (f64, f64) {
    match heap.fields(&heap.upcast(c, t.employee).unwrap()) {
        Some(Staff::Employee { hours, pay }) => (*hours, *pay),
        other => panic!("not an employee: {:?}", other),
    }
}

fn sales(heap: &Heap<Staff>, t: &Types, c: &Cast) -> u32 {
    match heap.fields(&heap.upcast(c, t.salesperson).unwrap()) {
        Some(Staff::Salesperson { sales }) => *sales,
        other => panic!("not a salesperson: {:?}", other),
    }
}

fn income(heap: &Heap<Staff>, t: &Types, c: &Cast) -> f64 {
    let (hours, pay) = hours_pay(heap, t, c);
    hours * pay
}

fn check_general() {
    let t = staff_types();
    let mut heap = Heap::new();
    let s = heap.link(salesperson(&t, "John", 21.5, 15.25, 4));
    // the salesperson reaches the fields of Person and Employee
    let msg = format!("{} made {} sales.", name(&heap, &t, &s), sales(&heap, &t, &s));
    assert_eq!(msg, "John made 4 sales.");
    assert_eq!(income(&heap, &t, &s), 21.5 * 15.25);
    // seen as a Person
    let p = heap.upcast(&s, t.person).unwrap();
    assert!(p.ident == t.person);
    // and cast down again to Employee
    let e = heap.downcast(&p, t.employee).unwrap();
    assert!(e.ident == t.employee);
}

fn check_mutability() {
    let t = staff_types();
    let mut heap = Heap::new();
    let s = heap.link(salesperson(&t, "John", 21.5, 15.25, 4));
    let e = heap.upcast(&s, t.employee).unwrap();
    assert!(heap.set_fields(&e, Staff::Employee { hours: 17.0, pay: 19.5 }));
    assert!(heap.set_fields(&s, Staff::Salesperson { sales: 2 }));
    let (hours, pay) = hours_pay(&heap, &t, &s);
    assert_eq!(
        format!("{} {} {} {}", name(&heap, &t, &s), hours, pay, sales(&heap, &t, &s)),
        "John 17 19.5 2"
    );

    // a copy is linked on its own, then changed through its views
    let copy = heap.clone_as(&s).unwrap();
    let s2 = heap.link(copy);
    let p2 = heap.upcast(&s2, t.person).unwrap();
    assert!(heap.set_fields(&p2, Staff::Person { name: "Dave".to_string() }));
    let e2 = heap.downcast(&p2, t.employee).unwrap();
    let (hours2, pay2) = hours_pay(&heap, &t, &e2);
    assert!(heap.set_fields(&e2, Staff::Employee { hours: hours2 + 3.0, pay: pay2 }));
    let (hours2, _) = hours_pay(&heap, &t, &s2);
    assert_eq!(format!("{} {}", name(&heap, &t, &s2), hours2), "Dave 20");
    // the original is untouched
    assert_eq!(name(&heap, &t, &s), "John");
}

#[test]
fn general_casting() {
    check_general();
}

#[test]
fn mutable_casting() {
    check_mutability();
}

#[test]
fn general_general() {
    check_general();
}

#[test]
fn mutability() {
    check_mutability();
}
