use autonet::ip::IpAddr;
use autonet::platform::holder::PortHolder;
use autonet::platform::portowner::{command_name, held_by, search, unseen, Search};
use autonet::platform::procnet::Listener;

fn listener(address: IpAddr, port: u16, uid: u32, inode: u64) -> Listener {
    Listener {
        address,
        port,
        uid,
        inode,
    }
}

#[test]
fn no_colliding_listener_means_nothing_listed() {
    let rows = vec![listener(IpAddr::v4(127, 0, 0, 1), 8080, 1000, 7)];
    assert!(matches!(
        search(&rows, IpAddr::v4(192, 168, 1, 20), 3000, Some(1000)),
        Search::Done(PortHolder::NotListed)
    ));
}

#[test]
fn another_users_socket_is_not_scanned_for() {
    let rows = vec![listener(IpAddr::V4(0), 3000, 0, 7)];
    assert!(matches!(
        search(&rows, IpAddr::v4(192, 168, 1, 20), 3000, Some(1000)),
        Search::Done(PortHolder::OtherUser { uid: 0 })
    ));
}

#[test]
fn our_own_socket_or_roots_view_scans_for_the_process() {
    let rows = vec![listener(IpAddr::V4(0), 3000, 1000, 56901)];
    assert!(matches!(
        search(&rows, IpAddr::v4(192, 168, 1, 20), 3000, Some(1000)),
        Search::Scan { inode: 56901, uid: 1000 }
    ));
    assert!(matches!(
        search(&rows, IpAddr::v4(192, 168, 1, 20), 3000, Some(0)),
        Search::Scan { inode: 56901, uid: 1000 }
    ));
    assert!(matches!(
        search(&rows, IpAddr::v4(192, 168, 1, 20), 3000, None),
        Search::Scan { inode: 56901, uid: 1000 }
    ));
}

#[test]
fn a_found_process_is_named_where_it_can_be() {
    assert_eq!(
        held_by(4821, Some("node".to_string())),
        PortHolder::Named {
            pid: 4821,
            name: "node".to_string()
        }
    );
    assert_eq!(held_by(4821, None), PortHolder::Unnamed { pid: 4821 });
}

#[test]
fn a_socket_with_no_visible_process_is_ours_gone_or_someone_elses() {
    assert_eq!(unseen(1000, Some(1000)), PortHolder::NotListed);
    assert_eq!(unseen(1000, Some(0)), PortHolder::OtherUser { uid: 1000 });
    assert_eq!(unseen(1000, None), PortHolder::OtherUser { uid: 1000 });
}

#[test]
fn a_comm_file_is_trimmed_and_an_empty_one_names_nothing() {
    assert_eq!(command_name("node\n").as_deref(), Some("node"));
    assert_eq!(command_name("  \n"), None);
    assert_eq!(command_name(""), None);
}
