use wutengine::query::{QueryShape, Queryable};

const A_TID: u64 = 1;
const B_TID: u64 = 2;
const C_TID: u64 = 3;
const D_TID: u64 = 4;
const E_TID: u64 = 5;
const F_TID: u64 = 6;
const G_TID: u64 = 7;
const DUMMY_TID: u64 = 100;
const INVALID_TID: u64 = 101;

fn shared(t: u64) -> QueryShape {
    QueryShape::Shared(t)
}

fn exclusive(t: u64) -> QueryShape {
    QueryShape::Exclusive(t)
}

#[test]
fn test_readonly() {
    let mut shared_set = Vec::new();
    let mut exclusive_set = Vec::new();

    let query = QueryShape::Tuple(vec![
        shared(A_TID),
        shared(B_TID),
        shared(C_TID),
        shared(D_TID),
        shared(E_TID),
        shared(F_TID),
    ]);
    query.register_borrows(&mut shared_set, &mut exclusive_set);

    assert!(exclusive_set.is_empty(), "No exclusive borrows present");

    assert_eq!(6, shared_set.len(), "Incorrect amount of shared borrows");
    assert_eq!(6, shared_set.len(), "Incorrect amount of shared borrows");

    assert!(shared_set.contains(&A_TID));
    assert!(shared_set.contains(&B_TID));
    assert!(shared_set.contains(&C_TID));
    assert!(shared_set.contains(&D_TID));
    assert!(shared_set.contains(&E_TID));
    assert!(shared_set.contains(&F_TID));
}

#[test]
fn test_writeonly() {
    let mut shared_set = Vec::new();
    let mut exclusive_set = Vec::new();

    let query = QueryShape::Tuple(vec![
        exclusive(A_TID),
        exclusive(B_TID),
        exclusive(C_TID),
        exclusive(D_TID),
        exclusive(E_TID),
        exclusive(F_TID),
    ]);
    query.register_borrows(&mut shared_set, &mut exclusive_set);

    assert!(shared_set.is_empty(), "No shared borrows present");

    assert_eq!(6, exclusive_set.len(), "Incorrect amount of exclusive borrows");

    assert!(exclusive_set.contains(&A_TID));
    assert!(exclusive_set.contains(&B_TID));
    assert!(exclusive_set.contains(&C_TID));
    assert!(exclusive_set.contains(&D_TID));
    assert!(exclusive_set.contains(&E_TID));
    assert!(exclusive_set.contains(&F_TID));
}

#[test]
fn test_mixed() {
    let mut shared_set = Vec::new();
    let mut exclusive_set = Vec::new();

    let query = QueryShape::Tuple(vec![
        exclusive(A_TID),
        shared(B_TID),
        exclusive(C_TID),
        shared(D_TID),
        exclusive(E_TID),
        shared(F_TID),
    ]);
    query.register_borrows(&mut shared_set, &mut exclusive_set);

    assert_eq!(3, shared_set.len(), "Incorrect amount of shared borrows");
    assert_eq!(3, exclusive_set.len(), "Incorrect amount of exclusive borrows");

    assert!(exclusive_set.contains(&A_TID));
    assert!(shared_set.contains(&B_TID));
    assert!(exclusive_set.contains(&C_TID));
    assert!(shared_set.contains(&D_TID));
    assert!(exclusive_set.contains(&E_TID));
    assert!(shared_set.contains(&F_TID));
}

#[test]
fn test_nested() {
    let mut shared_set = Vec::new();
    let mut exclusive_set = Vec::new();

    let query = QueryShape::Tuple(vec![
        QueryShape::Optional(Box::new(exclusive(A_TID))),
        QueryShape::With(Box::new(shared(B_TID)), Box::new(shared(DUMMY_TID))),
        QueryShape::Without(Box::new(exclusive(C_TID)), Box::new(shared(DUMMY_TID))),
        QueryShape::Or(Box::new(shared(D_TID)), Box::new(exclusive(E_TID))),
        QueryShape::Satisfies(Box::new(shared(INVALID_TID))),
        QueryShape::Tuple(vec![exclusive(F_TID), shared(G_TID)]),
    ]);
    query.register_borrows(&mut shared_set, &mut exclusive_set);

    assert_eq!(3, shared_set.len(), "Incorrect amount of shared borrows");
    assert_eq!(4, exclusive_set.len(), "Incorrect amount of exclusive borrows");

    // Option<>
    assert!(exclusive_set.contains(&A_TID));
    assert!(!shared_set.contains(&A_TID));

    // With<>
    assert!(shared_set.contains(&B_TID));
    assert!(!shared_set.contains(&DUMMY_TID));
    assert!(!exclusive_set.contains(&B_TID));
    assert!(!exclusive_set.contains(&DUMMY_TID));

    // Without<>
    assert!(!shared_set.contains(&C_TID));
    assert!(!shared_set.contains(&DUMMY_TID));
    assert!(exclusive_set.contains(&C_TID));
    assert!(!exclusive_set.contains(&DUMMY_TID));

    // Or<>
    assert!(shared_set.contains(&D_TID));
    assert!(!exclusive_set.contains(&D_TID));
    assert!(!shared_set.contains(&E_TID));
    assert!(exclusive_set.contains(&E_TID));

    // Satisfies<>
    assert!(!shared_set.contains(&INVALID_TID));
    assert!(!exclusive_set.contains(&INVALID_TID));

    // Tuple()
    assert!(!shared_set.contains(&F_TID));
    assert!(exclusive_set.contains(&F_TID));
    assert!(shared_set.contains(&G_TID));
    assert!(!exclusive_set.contains(&G_TID));
}

#[test]
fn test_deep_nested() {
    let mut shared_set = Vec::new();
    let mut exclusive_set = Vec::new();

    let inner_or = QueryShape::Or(
        Box::new(QueryShape::Tuple(vec![shared(A_TID), exclusive(B_TID)])),
        Box::new(QueryShape::Optional(Box::new(QueryShape::Tuple(vec![
            shared(C_TID),
            exclusive(D_TID),
        ])))),
    );
    let query = QueryShape::Tuple(vec![QueryShape::With(
        Box::new(QueryShape::Optional(Box::new(inner_or))),
        Box::new(shared(DUMMY_TID)),
    )]);
    query.register_borrows(&mut shared_set, &mut exclusive_set);

    assert_eq!(2, shared_set.len());
    assert_eq!(2, exclusive_set.len());

    assert!(shared_set.contains(&A_TID));
    assert!(exclusive_set.contains(&B_TID));
    assert!(shared_set.contains(&C_TID));
    assert!(exclusive_set.contains(&D_TID));
    assert!(!shared_set.contains(&DUMMY_TID));
    assert!(!exclusive_set.contains(&DUMMY_TID));
}

#[test]
fn query_borrow_counts() {
    let query = QueryShape::Tuple(vec![
        QueryShape::Optional(Box::new(exclusive(A_TID))),
        QueryShape::With(Box::new(shared(B_TID)), Box::new(shared(DUMMY_TID))),
        QueryShape::Or(
            Box::new(QueryShape::Tuple(vec![shared(C_TID), shared(D_TID)])),
            Box::new(exclusive(E_TID)),
        ),
        QueryShape::Satisfies(Box::new(shared(INVALID_TID))),
    ]);
    assert_eq!(3, query.num_shared_borrows());
    assert_eq!(2, query.num_exclusive_borrows());
}

#[test]
fn query_registration_keeps_existing_borrows() {
    let mut shared_set = vec![A_TID];
    let mut exclusive_set = vec![B_TID];
    let query = QueryShape::Tuple(vec![shared(A_TID), shared(C_TID), exclusive(B_TID)]);
    query.register_borrows(&mut shared_set, &mut exclusive_set);
    assert_eq!(vec![A_TID, C_TID], shared_set);
    assert_eq!(vec![B_TID], exclusive_set);
}
