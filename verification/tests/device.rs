use droppa::device::{user_agent_is_mobile, DeviceClass, Transmission};

#[test]
fn mobile_markers_are_found() {
    assert!(user_agent_is_mobile(
        "Mozilla/5.0 (iPhone; CPU iPhone OS 17_0 like Mac OS X) AppleWebKit/605.1.15"
    ));
    assert!(user_agent_is_mobile("Mozilla/5.0 (Linux; Android 14) Chrome/120.0 Mobile Safari"));
    assert!(user_agent_is_mobile("Mobile"));
    assert!(user_agent_is_mobile("xxAndroid"));
    assert!(user_agent_is_mobile("iPod touch"));
    assert!(user_agent_is_mobile("BlackBerry9700"));
    assert!(user_agent_is_mobile("Mozilla (Windows Phone 8.0)"));
    assert!(user_agent_is_mobile("Opera/9.80 (J2ME/MIDP; Opera Mini/9.80)"));
    assert!(user_agent_is_mobile("MSIE 9.0; IEMobile/9.0"));
}

#[test]
fn desktop_agents_are_not_mobile() {
    assert!(!user_agent_is_mobile(""));
    assert!(!user_agent_is_mobile(
        "Mozilla/5.0 (X11; Linux x86_64; rv:120.0) Gecko/20100101 Firefox/120.0"
    ));
    assert!(!user_agent_is_mobile("mobile"));
    assert!(!user_agent_is_mobile("ANDROID"));
    assert!(!user_agent_is_mobile("Windows  Phone"));
    assert!(!user_agent_is_mobile("Opera Min"));
    assert!(!user_agent_is_mobile("iPhon"));
}

#[test]
fn markers_are_found_beside_other_scripts() {
    assert!(user_agent_is_mobile("\u{6d4f}\u{89c8}\u{5668} Android \u{1f600}"));
    assert!(!user_agent_is_mobile("\u{6d4f}\u{89c8}\u{5668} \u{1f600}"));
}

#[test]
fn classes_mirror_each_other() {
    assert_eq!(DeviceClass::Mobile.other(), DeviceClass::Desktop);
    assert_eq!(DeviceClass::Desktop.other(), DeviceClass::Mobile);
    assert!(DeviceClass::Mobile.is_mobile());
    assert!(!DeviceClass::Desktop.is_mobile());
    assert_eq!(DeviceClass::from_mobile(true), DeviceClass::Mobile);
    assert_eq!(DeviceClass::from_mobile(false), DeviceClass::Desktop);
    assert_eq!(DeviceClass::of_user_agent("an iPhone"), DeviceClass::Mobile);
    assert_eq!(DeviceClass::of_user_agent("a laptop"), DeviceClass::Desktop);
}

#[test]
fn each_screen_watches_the_other_class() {
    assert_eq!(Transmission::Mobile.reported_class(), Some(DeviceClass::Desktop));
    assert_eq!(Transmission::Desktop.reported_class(), Some(DeviceClass::Mobile));
    assert_eq!(Transmission::Zipping.reported_class(), None);
    assert_eq!(Transmission::for_viewer(DeviceClass::Mobile), Transmission::Mobile);
    assert_eq!(Transmission::for_viewer(DeviceClass::Desktop), Transmission::Desktop);
}
