use hyprland_preview_share_picker::error::{Capability, Error};
use hyprland_preview_share_picker::registry::{same_text, Interface, ManagerKind, Registry};

#[test]
fn interface_names() {
    assert_eq!(Interface::from_name("wl_shm"), Some(Interface::Shm));
    assert_eq!(Interface::from_name("wl_output"), Some(Interface::Output));
    assert_eq!(Interface::from_name("zwlr_screencopy_manager_v1"), Some(Interface::ScreencopyManager));
    assert_eq!(Interface::from_name("hyprland_toplevel_export_manager_v1"), Some(Interface::ToplevelExportManager));
    assert_eq!(Interface::from_name("wl_seat"), None);
    assert_eq!(Interface::from_name("wl_sh"), None);
    assert!(same_text("abc", "abc"));
    assert!(!same_text("abc", "abd"));
}

#[test]
fn screencopy_registry_resolves() {
    let mut reg = Registry::new(ManagerKind::Screencopy);
    assert_eq!(reg.on_global("wl_compositor"), None);
    assert_eq!(reg.on_global("wl_output"), Some(Interface::Output));
    assert_eq!(reg.on_global("hyprland_toplevel_export_manager_v1"), None);
    assert_eq!(reg.on_global("zwlr_screencopy_manager_v1"), Some(Interface::ScreencopyManager));
    assert_eq!(reg.finish(), Err(Error::CapabilityUnavailable(Capability::Shm)));
    assert_eq!(reg.on_global("wl_shm"), Some(Interface::Shm));
    assert_eq!(reg.finish(), Ok(()));
}

#[test]
fn toplevel_registry_needs_its_manager() {
    let mut reg = Registry::new(ManagerKind::Toplevel);
    assert_eq!(reg.on_global("wl_shm"), Some(Interface::Shm));
    assert_eq!(reg.on_global("wl_output"), None);
    assert_eq!(reg.on_global("zwlr_screencopy_manager_v1"), None);
    assert_eq!(reg.finish(), Err(Error::CapabilityUnavailable(Capability::ToplevelExportManager)));
    assert_eq!(reg.on_global("hyprland_toplevel_export_manager_v1"), Some(Interface::ToplevelExportManager));
    assert_eq!(reg.finish(), Ok(()));
}

#[test]
fn empty_registry_reports_manager_first() {
    let reg = Registry::new(ManagerKind::Screencopy);
    assert_eq!(reg.finish(), Err(Error::CapabilityUnavailable(Capability::ScreencopyManager)));
}
