use crud_store::categories::{CategoryStore, CreateCategory, UpdateCategory};
use crud_store::products::{CreateProduct, ProductStore, UpdateProduct};
use crud_store::users::{CreateUser, UpdateUser, UserStore};
use crud_store::NotFound;

#[test]
fn category_lifecycle_scenario() {
    let mut store = CategoryStore::new();
    let created = store.create(CreateCategory {
        name: "Books".to_string(),
        color: 5,
    });
    assert_eq!(created.name, "Books");
    assert_eq!(created.color, 5);

    let got = store.get(created.uuid).unwrap();
    assert_eq!(got.uuid, created.uuid);
    assert_eq!(got.name, "Books");
    assert_eq!(got.color, 5);

    let updated = store
        .update(
            created.uuid,
            UpdateCategory {
                name: None,
                color: Some(7),
            },
        )
        .unwrap();
    assert_eq!(updated.uuid, created.uuid);
    assert_eq!(updated.name, "Books");
    assert_eq!(updated.color, 7);

    assert_eq!(store.delete(created.uuid), Ok(()));
    assert_eq!(store.get(created.uuid).map(|c| c.uuid), Err(NotFound));
}

#[test]
fn list_on_empty_collection_is_empty() {
    let categories = CategoryStore::new();
    assert_eq!(categories.list().len(), 0);
    assert_eq!(categories.len(), 0);

    let products = ProductStore::new();
    assert_eq!(products.list().len(), 0);

    let users = UserStore::new();
    assert_eq!(users.list().len(), 0);
}

#[test]
fn created_identifiers_are_unique() {
    let mut store = UserStore::new();
    let mut ids: Vec<u128> = Vec::new();
    for i in 0..32 {
        let u = store.create(CreateUser {
            username: format!("user{}", i),
            email: format!("user{}@example.com", i),
            password: "pw-123456".to_string(),
        });
        ids.push(u.uuid);
    }
    for a in 0..ids.len() {
        for b in (a + 1)..ids.len() {
            assert_ne!(ids[a], ids[b]);
        }
    }
}

#[test]
fn create_then_get_round_trip() {
    let mut store = ProductStore::new();
    let created = store.create(CreateProduct {
        name: "Widget".to_string(),
        description: "A small widget".to_string(),
        price: 250,
        stock: 40,
    });
    let got = store.get(created.uuid).unwrap();
    assert_eq!(got.uuid, created.uuid);
    assert_eq!(got.name, created.name);
    assert_eq!(got.description, created.description);
    assert_eq!(got.price, created.price);
    assert_eq!(got.stock, created.stock);
}

#[test]
fn update_with_empty_payload_changes_nothing() {
    let mut store = UserStore::new();
    let created = store.create(CreateUser {
        username: "alice".to_string(),
        email: "alice@example.com".to_string(),
        password: "pw-123456".to_string(),
    });
    let updated = store
        .update(
            created.uuid,
            UpdateUser {
                username: None,
                email: None,
                password: None,
            },
        )
        .unwrap();
    assert_eq!(updated.uuid, created.uuid);
    assert_eq!(updated.username, created.username);
    assert_eq!(updated.email, created.email);
    assert_eq!(updated.password, created.password);

    let got = store.get(created.uuid).unwrap();
    assert_eq!(got.username, created.username);
    assert_eq!(got.email, created.email);
    assert_eq!(got.password, created.password);
}

#[test]
fn partial_update_overwrites_exactly_present_fields() {
    let mut store = ProductStore::new();
    let created = store.create(CreateProduct {
        name: "Widget".to_string(),
        description: "A small widget".to_string(),
        price: 250,
        stock: 40,
    });
    let payload = UpdateProduct {
        name: None,
        description: None,
        price: Some(199),
        stock: None,
    };
    let once = store.update(created.uuid, payload).unwrap();
    assert_eq!(once.uuid, created.uuid);
    assert_eq!(once.name, "Widget");
    assert_eq!(once.description, "A small widget");
    assert_eq!(once.price, 199);
    assert_eq!(once.stock, 40);

    // Applying the same payload again is a no-op relative to the first.
    let payload_again = UpdateProduct {
        name: None,
        description: None,
        price: Some(199),
        stock: None,
    };
    let twice = store.update(created.uuid, payload_again).unwrap();
    assert_eq!(twice.uuid, once.uuid);
    assert_eq!(twice.name, once.name);
    assert_eq!(twice.description, once.description);
    assert_eq!(twice.price, once.price);
    assert_eq!(twice.stock, once.stock);
}

#[test]
fn delete_removes_exactly_one() {
    let mut store = CategoryStore::new();
    let first = store.create(CreateCategory {
        name: "Books".to_string(),
        color: 1,
    });
    let second = store.create(CreateCategory {
        name: "Games".to_string(),
        color: 2,
    });
    let third = store.create(CreateCategory {
        name: "Tools".to_string(),
        color: 3,
    });
    assert_eq!(store.len(), 3);

    assert_eq!(store.delete(second.uuid), Ok(()));
    assert_eq!(store.len(), 2);

    // The deleted identifier is gone for every operation.
    assert!(store.get(second.uuid).is_err());
    assert!(store
        .update(
            second.uuid,
            UpdateCategory {
                name: None,
                color: Some(9),
            },
        )
        .is_err());
    assert_eq!(store.delete(second.uuid), Err(NotFound));

    // The other records are untouched and keep their order.
    let listed = store.list();
    assert_eq!(listed.len(), 2);
    assert_eq!(listed[0].uuid, first.uuid);
    assert_eq!(listed[0].name, "Books");
    assert_eq!(listed[0].color, 1);
    assert_eq!(listed[1].uuid, third.uuid);
    assert_eq!(listed[1].name, "Tools");
    assert_eq!(listed[1].color, 3);
}

#[test]
fn not_found_never_mutates_the_collection() {
    let mut store = UserStore::new();
    let kept = store.create(CreateUser {
        username: "bob".to_string(),
        email: "bob@example.com".to_string(),
        password: "pw-123456".to_string(),
    });
    let gone = store.create(CreateUser {
        username: "carol".to_string(),
        email: "carol@example.com".to_string(),
        password: "pw-123456".to_string(),
    });
    assert_eq!(store.delete(gone.uuid), Ok(()));

    // A deleted (no longer issued) identifier: every operation reports
    // NotFound and the collection is unchanged.
    assert!(store.get(gone.uuid).is_err());
    assert!(store
        .update(
            gone.uuid,
            UpdateUser {
                username: Some("mallory".to_string()),
                email: None,
                password: None,
            },
        )
        .is_err());
    assert_eq!(store.delete(gone.uuid), Err(NotFound));

    let listed = store.list();
    assert_eq!(listed.len(), 1);
    assert_eq!(listed[0].uuid, kept.uuid);
    assert_eq!(listed[0].username, "bob");
    assert_eq!(listed[0].email, "bob@example.com");
}

#[test]
fn list_returns_records_in_storage_order() {
    let mut store = ProductStore::new();
    let a = store.create(CreateProduct {
        name: "A".to_string(),
        description: "first".to_string(),
        price: 1,
        stock: 10,
    });
    let b = store.create(CreateProduct {
        name: "B".to_string(),
        description: "second".to_string(),
        price: 2,
        stock: 20,
    });
    let listed = store.list();
    assert_eq!(listed.len(), 2);
    assert_eq!(listed[0].uuid, a.uuid);
    assert_eq!(listed[0].name, "A");
    assert_eq!(listed[1].uuid, b.uuid);
    assert_eq!(listed[1].name, "B");
}
