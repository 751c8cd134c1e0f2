use monolith::menu::{menu_action, menu_layout, MenuAction};
use monolith::serial::{connect_port, get_ports, port_opened_text, SerialControl, SerialError};
use std::sync::atomic::{AtomicBool, Ordering};
use std::sync::Arc;

#[test]
fn scanned_ports_are_listed() {
    let names = vec!["/dev/ttyUSB0".to_string(), "/dev/ttyS1".to_string()];
    assert_eq!(get_ports(Some(names.clone())), names);
    assert!(get_ports(None).is_empty());
}

#[test]
fn connect_reports_open_errors() {
    assert_eq!(connect_port(Ok(())), Ok(()));
    assert_eq!(
        connect_port(Err(SerialError::OpenError("No such file or directory".to_string()))),
        Err("Failed to open port: No such file or directory".to_string())
    );
    assert_eq!(SerialError::IoError("x".to_string()).message(), "IO error: x");
    assert_eq!(port_opened_text("COM3"), "Порт COM3 открыт");
}

#[test]
fn new_stream_hands_back_the_previous_flag() {
    let mut control = SerialControl::default();
    assert!(control.stop.is_none());
    let first = Arc::new(AtomicBool::new(false));
    assert!(control.replace_stop(first.clone()).is_none());
    let second = Arc::new(AtomicBool::new(false));
    let previous = control.replace_stop(second.clone()).unwrap();
    assert!(Arc::ptr_eq(&previous, &first));
    previous.store(true, Ordering::Relaxed);
    assert!(first.load(Ordering::Relaxed));
    assert!(!second.load(Ordering::Relaxed));
    let current = control.stop_current().unwrap();
    assert!(Arc::ptr_eq(&current, &second));
    assert!(control.stop.is_none());
    assert!(control.stop_current().is_none());
}

#[test]
fn menu_items() {
    assert_eq!(menu_action("open"), MenuAction::OpenCsv);
    assert_eq!(menu_action("quit"), MenuAction::Quit);
    assert_eq!(menu_action("about"), MenuAction::Unexpected);
    assert_eq!(menu_action(""), MenuAction::Unexpected);
}

#[test]
fn menu_layout_lists_the_menus_in_order() {
    let menus = menu_layout();
    let titles: Vec<&str> = menus.iter().map(|m| m.title).collect();
    assert_eq!(
        titles,
        vec!["Файл", "Подключение", "Агрегат", "Масштаб", "Редактор", "Доп. функции", "О программе"]
    );
    let file: Vec<(&str, &str)> = menus[0].items.iter().map(|i| (i.id, i.label)).collect();
    assert_eq!(file, vec![("open", "Открыть"), ("save_as", "Сохранить как"), ("quit", "Выход")]);
    assert_eq!(menus[1].items[2].id, "OWEN 210");
    let mut ids: Vec<&str> = menus.iter().flat_map(|m| m.items.iter().map(|i| i.id)).collect();
    assert_eq!(ids.len(), 16);
    ids.sort();
    ids.dedup();
    assert_eq!(ids.len(), 16);
    let with_action: Vec<&str> = menus
        .iter()
        .flat_map(|m| m.items.iter())
        .filter(|i| menu_action(i.id) != MenuAction::Unexpected)
        .map(|i| i.id)
        .collect();
    assert_eq!(with_action, vec!["open", "quit"]);
}
