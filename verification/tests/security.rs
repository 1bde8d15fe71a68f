use std::collections::HashSet;
use workspace::security::{Capability, Rights};

#[test]
fn rights_read_contains_read() {
    assert!(Rights::READ().contains(Rights::READ()));
}

#[test]
fn rights_read_write_contains_read() {
    let rw = Rights(Rights::READ().0 | Rights::WRITE().0);
    assert!(rw.contains(Rights::READ()));
    assert!(rw.contains(Rights::WRITE()));
    assert!(!rw.contains(Rights::EXECUTE()));
}

#[test]
fn rights_full_contains_all() {
    let full = Rights(Rights::READ().0 | Rights::WRITE().0 | Rights::EXECUTE().0 | Rights::ADMIN().0);
    assert!(full.contains(Rights::READ()));
    assert!(full.contains(Rights::WRITE()));
    assert!(full.contains(Rights::EXECUTE()));
    assert!(full.contains(Rights::ADMIN()));
}

#[test]
fn rights_none_contains_nothing() {
    let none = Rights(0);
    assert!(!none.contains(Rights::READ()));
    assert!(!none.contains(Rights::WRITE()));
}

#[test]
fn capability_equality() {
    let cap1 = Capability {
        resource: "fs:/tmp".into(),
        rights: Rights::READ(),
    };
    let cap2 = Capability {
        resource: "fs:/tmp".into(),
        rights: Rights::READ(),
    };
    assert_eq!(cap1, cap2);
}

#[test]
fn capability_hash() {
    let mut set = HashSet::new();
    set.insert(Capability {
        resource: "net:*".into(),
        rights: Rights::WRITE(),
    });
    set.insert(Capability {
        resource: "net:*".into(),
        rights: Rights::WRITE(),
    });
    assert_eq!(set.len(), 1);
}

#[test]
fn capability_inequality() {
    let cap1 = Capability {
        resource: "fs:/tmp".into(),
        rights: Rights::READ(),
    };
    let cap2 = Capability {
        resource: "fs:/tmp".into(),
        rights: Rights::WRITE(),
    };
    assert_ne!(cap1, cap2);
}

#[test]
fn rights_constant_bits() {
    assert_eq!(Rights::READ().0, 0b0001);
    assert_eq!(Rights::WRITE().0, 0b0010);
    assert_eq!(Rights::EXECUTE().0, 0b0100);
    assert_eq!(Rights::ADMIN().0, 0b1000);
}

#[test]
fn rights_contains_laws_exhaustive() {
    for a in 0u8..=255 {
        let ra = Rights(a);
        assert!(ra.contains(ra));
        assert!(ra.contains(Rights(0)));
        for b in 0u8..=255 {
            let rb = Rights(b);
            if ra.contains(rb) && rb.contains(ra) {
                assert_eq!(a, b);
            }
            let union = Rights(a | b);
            assert!(union.contains(ra));
            assert!(union.contains(rb));
            assert_eq!(ra.contains(rb), (0..8).all(|i| (b >> i) & 1 == 0 || (a >> i) & 1 == 1));
        }
    }
}

#[test]
fn rights_contains_transitive_examples() {
    let all = Rights(15);
    let rw = Rights(3);
    let r = Rights(1);
    assert!(all.contains(rw) && rw.contains(r) && all.contains(r));
}

#[test]
fn tc_13_001_capability_grant_read() {
    let cap = Capability {
        resource: "fs:/tmp/test.txt".into(),
        rights: Rights::READ(),
    };
    assert!(cap.rights.contains(Rights::READ()));
}

#[test]
fn tc_13_002_capability_grant_write() {
    let cap = Capability {
        resource: "fs:/tmp/".into(),
        rights: Rights::WRITE(),
    };
    assert!(cap.rights.contains(Rights::WRITE()));
}

#[test]
fn tc_13_003_capability_deny_read_without_rights() {
    let cap = Capability {
        resource: "fs:/tmp/secret.txt".into(),
        rights: Rights(0),
    };
    assert!(!cap.rights.contains(Rights::READ()));
}

#[test]
fn tc_13_004_capability_deny_write_with_only_read() {
    let cap = Capability {
        resource: "fs:/tmp/".into(),
        rights: Rights::READ(),
    };
    assert!(cap.rights.contains(Rights::READ()));
    assert!(!cap.rights.contains(Rights::WRITE()));
}

#[test]
fn tc_13_006_capability_inheritance_spawn() {
    let parent = Capability {
        resource: "fs:/tmp/".into(),
        rights: Rights::READ(),
    };
    let child = Capability {
        resource: parent.resource.clone(),
        rights: parent.rights,
    };
    assert!(child.rights.contains(Rights::READ()));
}

#[test]
fn tc_13_007_capability_inheritance_restricted_spawn() {
    let parent = Capability {
        resource: "fs:/tmp/".into(),
        rights: Rights(Rights::READ().0 | Rights::WRITE().0),
    };
    let child = Capability {
        resource: parent.resource.clone(),
        rights: Rights::READ(),
    };
    assert!(child.rights.contains(Rights::READ()));
    assert!(!child.rights.contains(Rights::WRITE()));
}

#[test]
fn tc_13_008_rbac_owner_creates_member() {
    let owner_rights = Rights(Rights::READ().0 | Rights::WRITE().0 | Rights::ADMIN().0);
    assert!(owner_rights.contains(Rights::ADMIN()));
}

#[test]
fn tc_13_010_rbac_guest_cannot_create_member() {
    let guest_rights = Rights::READ();
    assert!(!guest_rights.contains(Rights::ADMIN()));
}

#[test]
fn tc_13_012_rbac_custom_role_editor() {
    let editor = Rights(Rights::READ().0 | Rights::WRITE().0);
    assert!(editor.contains(Rights::READ()));
    assert!(editor.contains(Rights::WRITE()));
    assert!(!editor.contains(Rights::ADMIN()));
}

#[test]
fn capability_wildcard_mock() {
    let cap = Capability {
        resource: "fs:/tmp/*".into(),
        rights: Rights::READ(),
    };
    assert!(cap.resource.ends_with("/*"));
    assert!(cap.rights.contains(Rights::READ()));
}
