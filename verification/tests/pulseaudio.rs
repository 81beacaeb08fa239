use libereco::pulseaudio::{loaded_module_id, pair_names, HiddenDevice, VirtualDevicePair};

#[test]
fn names_of_meeting_output_pair() {
    let n = pair_names("En", "ToMeeting", HiddenDevice::Output);
    assert_eq!(n.sink_name, "translator_en_ToMeeting_speaker");
    assert_eq!(n.source_name, "translator_en_ToMeeting_microphone");
    assert_eq!(n.output_name, "___internal.not_use.EN");
    assert_eq!(n.input_name, "Translator.EN.ToMeeting.Microphone");
    assert_eq!(n.sink_properties, "device.description=___internal.not_use.EN");
    assert_eq!(n.source_master, "translator_en_ToMeeting_speaker.monitor");
    assert_eq!(n.source_properties, "device.description=Translator.EN.ToMeeting.Microphone");
}

#[test]
fn names_of_meeting_input_pair() {
    let n = pair_names("de", "FromMeeting", HiddenDevice::Input);
    assert_eq!(n.output_name, "Translator.DE.FromMeeting.Speaker");
    assert_eq!(n.input_name, "___internal.not_use.DE_");
    let pair = VirtualDevicePair::new(n, 7, 8);
    assert_eq!(pair.sink_name, "translator_de_FromMeeting_speaker");
    assert_eq!((pair.sink_module, pair.source_module), (7, 8));
}

#[test]
fn unload_lists_own_modules_highest_first() {
    let listing = "3\tmodule-alsa-card\tdevice_id=\"0\"\n\
12\tmodule-null-sink\tsink_name=translator_en_ToMeeting_speaker\n\
15\tmodule-remap-source\tsource_properties=device.description=Translator.EN.ToMeeting.Microphone\n\
9\tmodule-bluetooth-policy\n";
    assert_eq!(libereco::pulseaudio::modules_to_unload(listing), vec![15, 12]);
}

#[test]
fn unload_of_foreign_listing_is_empty() {
    assert!(libereco::pulseaudio::modules_to_unload("1\tmodule-udev-detect\n").is_empty());
    assert!(libereco::pulseaudio::modules_to_unload("").is_empty());
}

#[test]
fn module_id_printed_by_load_module() {

    assert_eq!(loaded_module_id("536870913\n"), Some(536870913));
    assert_eq!(loaded_module_id("  42 "), Some(42));
    assert_eq!(loaded_module_id("+7"), Some(7));
    assert_eq!(loaded_module_id("4294967295"), Some(u32::MAX));
    assert_eq!(loaded_module_id("4294967296"), None);
    assert_eq!(loaded_module_id("Failure: Module initialization failed"), None);
    assert_eq!(loaded_module_id(""), None);
    assert_eq!(loaded_module_id("+"), None);
    assert_eq!(loaded_module_id("-1"), None);
    assert_eq!(loaded_module_id("12a"), None);
}
