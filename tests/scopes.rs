use scope_clock::ScopeClock;

#[test]
fn basic() {
    let _sc = ScopeClock::new("my_scope");
    let x = 3;
    let y = 20;
    let result = x * y;
    println!("Result is {}", result);

    assert!(true);
}

#[test]
fn multi_scope() {
    {
        let _sc = ScopeClock::new("scope_1");
        let x = 3;
        let y = 20;
        let result = x * y;
        println!("Result 1 is {}", result);
    }

    {
        let _sc = ScopeClock::new("scope_2");
        let x = 33;
        let y = 7;
        let result = x % y;
        println!("Result 2 is {}", result);
    }

    assert!(true);
}

#[test]
fn nested_scope() {
    {
        let _sc = ScopeClock::new("outer_scope");
        let x = 3;
        let y = 20;
        let result = x * y;
        {
            let _sc = ScopeClock::new("inner_scope");
            let x = 33;
            let y = 7;
            let result = x % y;
            println!("Inner result is {}", result);
        }
        println!("Outer result is {}", result);
    }

    assert!(true);
}

#[test]
fn empty_label_scope() {
    let _sc = ScopeClock::new("");
}

#[test]
fn early_return_scope() {
    fn first_even(v: &[u32]) -> Option<u32> {
        let _sc = ScopeClock::new("search");
        for x in v {
            if x % 2 == 0 {
                return Some(*x);
            }
        }
        None
    }
    assert_eq!(first_even(&[1, 3, 4, 5]), Some(4));
    assert_eq!(first_even(&[1, 3]), None);
}

#[test]
fn busy_scope() {
    let begun = std::time::Instant::now();
    {
        let _sc = ScopeClock::new("busy_scope");
        let mut acc: u64 = 0;
        while begun.elapsed() < std::time::Duration::from_millis(2) {
            acc = acc.wrapping_add(1);
        }
        assert!(acc > 0);
    }
    assert!(begun.elapsed() >= std::time::Duration::from_millis(2));
}
