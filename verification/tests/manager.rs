use axum_cookie::Cookie;
use axum_cookie::CookieManager;
use cookie_rs::CookieJar;

#[test]
fn added_cookie_is_returned_until_it_is_removed() {
    let manager = CookieManager::new(CookieJar::default());
    let cookie = Cookie::new("session", "abc123").with_path("/").with_secure(true);
    manager.add(cookie.clone());
    assert_eq!(manager.get("session"), Some(cookie));
    manager.remove("session");
    assert_eq!(manager.get("session"), None);
}

#[test]
fn set_does_what_add_does() {
    let added = CookieManager::new(CookieJar::default());
    let set = CookieManager::new(CookieJar::default());
    added.add(Cookie::new("a", "1"));
    added.add(Cookie::new("a", "2"));
    set.set(Cookie::new("a", "1"));
    set.set(Cookie::new("a", "2"));
    assert_eq!(added.get("a"), set.get("a"));
    assert_eq!(added.cookie(), set.cookie());
    assert_eq!(added.as_header_value(), set.as_header_value());
    assert_eq!(set.get("a"), Some(Cookie::new("a", "2")));
}

#[test]
fn remove_of_an_absent_name_is_no_error() {
    let manager = CookieManager::new(CookieJar::default());
    manager.remove("nothing");
    assert_eq!(manager.get("nothing"), None);
    assert!(manager.cookie().is_empty());
}

#[test]
fn manager_starts_with_the_cookies_of_its_jar() {
    let jar = CookieJar::parse("a=1; b=2".to_string()).unwrap();
    let manager = CookieManager::new(jar);
    assert_eq!(manager.get("a"), Some(Cookie::new("a", "1")));
    assert_eq!(manager.get("b"), Some(Cookie::new("b", "2")));
    assert_eq!(manager.cookie(), vec![Cookie::new("a", "1"), Cookie::new("b", "2")]);
    assert!(manager.as_header_value().is_empty());
}

#[test]
fn clones_reach_the_same_jar() {
    let manager = CookieManager::new(CookieJar::default());
    let other = manager.clone();
    manager.add(Cookie::new("a", "1"));
    assert_eq!(other.get("a"), Some(Cookie::new("a", "1")));
    other.add(Cookie::new("b", "2"));
    other.remove("a");
    assert_eq!(manager.get("a"), None);
    assert_eq!(manager.get("b"), Some(Cookie::new("b", "2")));
    assert_eq!(manager.cookie(), other.cookie());
    assert_eq!(manager.as_header_value(), other.as_header_value());
}

#[test]
fn cookies_come_in_ascending_order_of_names_without_repeats() {
    let manager = CookieManager::new(CookieJar::parse("m=0; b=0".to_string()).unwrap());
    manager.add(Cookie::new("z", "1"));
    manager.add(Cookie::new("a", "1"));
    manager.add(Cookie::new("m", "1"));
    let all = manager.cookie();
    let names: Vec<&str> = all.iter().map(|c| c.name()).collect();
    assert_eq!(names, vec!["a", "b", "m", "z"]);
    assert_eq!(manager.get("m"), Some(Cookie::new("m", "1")));
}

#[test]
fn header_values_tell_of_each_change_once() {
    let manager = CookieManager::new(CookieJar::parse("kept=1; gone=2".to_string()).unwrap());
    manager.add(Cookie::new("new", "3").with_max_age(60));
    manager.add(Cookie::new("new", "4").with_max_age(120));
    manager.remove("gone");
    assert_eq!(
        manager.as_header_value(),
        vec!["gone=removed; Max-Age=0".to_string(), "new=4; Max-Age=120".to_string()]
    );
}

#[test]
fn interleaved_clones_lose_no_cookie() {
    let manager = CookieManager::new(CookieJar::default());
    let clones: Vec<CookieManager> = (0..8).map(|_| manager.clone()).collect();
    let each = 50usize;
    for i in 0..each {
        for (t, clone) in clones.iter().enumerate() {
            let own = format!("t{t}-{i}");
            clone.add(Cookie::new(&own, "own"));
            clone.add(Cookie::new("shared", &own));
        }
        for (t, clone) in clones.iter().enumerate().rev() {
            let own = format!("t{t}-{i}");
            if i % 2 == 1 {
                clones[(t + 3) % clones.len()].remove(&own);
            }
            assert_eq!(clone.get(&own).is_some(), i % 2 == 0);
        }
    }
    for t in 0..clones.len() {
        for i in 0..each {
            let own = format!("t{t}-{i}");
            let expected = if i % 2 == 0 { Some(Cookie::new(&own, "own")) } else { None };
            assert_eq!(manager.get(&own), expected);
        }
    }
    assert_eq!(manager.get("shared"), Some(Cookie::new("shared", "t7-49")));
    assert_eq!(manager.cookie().len(), clones.len() * each / 2 + 1);
    assert_eq!(manager.as_header_value().len(), clones.len() * each + 1);
}
