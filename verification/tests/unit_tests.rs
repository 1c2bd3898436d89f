//! Unit tests for the layout arithmetic, the forwarding word, the page
//! resource and the options record.

use mmtk::forwarding_word::{
    attempt_to_forward, clear_forwarding_bits, is_forwarded, publish_forwarded,
    spin_and_get_forwarded_object, ForwardingState,
};
use mmtk::layout::{
    align_allocation, align_is_power_of_two, align_legal, bytes_to_pages, Address,
    ObjectReference, BYTES_IN_PAGE, HEAP_END, HEAP_START, ZERO_SIZE_SENTINEL,
};
use mmtk::options::{str_eq, Options};
use mmtk::page_resource::PageResource;

#[test]
fn address_basics() {
    let a = Address(0x1000_0040);
    assert_eq!(a.as_usize(), 0x1000_0040);
    assert!(!a.is_zero());
    assert!(Address(0).is_zero());
    let o = a.to_object_reference();
    assert_eq!(o.value(), 0x1000_0040);
    assert!(!o.is_null());
    assert_eq!(o.to_address(), a);
    assert!(ObjectReference(0).is_null());
}

#[test]
fn heap_range_constants() {
    assert!(HEAP_START < HEAP_END);
    assert_eq!(BYTES_IN_PAGE, 4096);
    assert!(ZERO_SIZE_SENTINEL != 0);
    assert!(ZERO_SIZE_SENTINEL < HEAP_START);
}

#[test]
fn power_of_two_check() {
    assert!(align_is_power_of_two(1));
    assert!(align_is_power_of_two(8));
    assert!(align_is_power_of_two(4096));
    assert!(!align_is_power_of_two(0));
    assert!(!align_is_power_of_two(12));
    assert!(align_legal(8));
    assert!(align_legal(4096));
    assert!(!align_legal(8192));
    assert!(!align_legal(3));
}

#[test]
fn align_allocation_exact() {
    // already aligned: no padding
    assert_eq!(align_allocation(64, 8, 0), Some(64));
    // next multiple of 8 above 65 is 72
    assert_eq!(align_allocation(65, 8, 0), Some(72));
    // offset shifts the congruence: (62 + 2) % 8 == 0
    assert_eq!(align_allocation(60, 8, 2), Some(62));
    // page-sized alignment
    assert_eq!(align_allocation(4097, 4096, 0), Some(8192));
}

#[test]
fn bytes_to_pages_exact() {
    assert_eq!(bytes_to_pages(0), 0);
    assert_eq!(bytes_to_pages(1), 1);
    assert_eq!(bytes_to_pages(4096), 1);
    assert_eq!(bytes_to_pages(4097), 2);
    assert_eq!(bytes_to_pages(64_000), 16);
}

#[test]
fn forwarding_word_protocol() {
    let mut w = ForwardingState::Unforwarded;
    assert!(!is_forwarded(&w));
    // first visitor wins the claim
    let prior = attempt_to_forward(&mut w);
    assert_eq!(prior, ForwardingState::Unforwarded);
    assert_eq!(w, ForwardingState::BeingForwarded);
    // a second visitor loses and observes the claim
    let prior2 = attempt_to_forward(&mut w);
    assert_eq!(prior2, ForwardingState::BeingForwarded);
    assert_eq!(w, ForwardingState::BeingForwarded);
    // the winner publishes the copy's address
    publish_forwarded(&mut w, 0x2000_0008);
    assert!(is_forwarded(&w));
    assert_eq!(spin_and_get_forwarded_object(&w), 0x2000_0008);
    // a forwarded word is final: another attempt changes nothing
    let prior3 = attempt_to_forward(&mut w);
    assert_eq!(prior3, ForwardingState::Forwarded(0x2000_0008));
    assert_eq!(w, ForwardingState::Forwarded(0x2000_0008));
}

#[test]
fn forwarding_clear_on_fresh_copy() {
    // the copy inherits the claimed word and is reset before publication
    let mut w = ForwardingState::BeingForwarded;
    clear_forwarding_bits(&mut w);
    assert_eq!(w, ForwardingState::Unforwarded);
}

#[test]
fn page_resource_accounting() {
    let mut pr = PageResource::new(16);
    assert_eq!(pr.reserved_pages(), 0);
    assert!(pr.reserve_pages(4));
    assert_eq!(pr.reserved_pages(), 4);
    pr.commit_pages(4);
    assert_eq!(pr.committed, 4);
    assert_eq!(pr.pending, 0);
    // over-reservation is refused and changes nothing
    assert!(!pr.reserve_pages(13));
    assert_eq!(pr.reserved_pages(), 4);
    pr.release_all();
    assert_eq!(pr.reserved_pages(), 0);
    assert_eq!(pr.committed, 0);
}

#[test]
fn options_defaults_and_process() {
    let mut o = Options::new();
    assert_eq!(o.threads, 1);
    assert_eq!(o.gc_trigger_percent, 90);
    assert!(!o.sanity);
    assert!(o.process("threads", 4));
    assert_eq!(o.threads, 4);
    assert!(o.process("gc_trigger", 75));
    assert_eq!(o.gc_trigger_percent, 75);
    assert!(o.process("sanity", 1));
    assert!(o.sanity);
    assert!(o.process("protect_on_release", 1));
    assert!(o.protect_on_release);
    assert!(o.process("stress_factor", 1 << 20));
    assert_eq!(o.stress_factor, 1 << 20);
    // out-of-range and unknown settings are refused, changing nothing
    assert!(!o.process("threads", 0));
    assert!(!o.process("threads", 1000));
    assert!(!o.process("gc_trigger", 0));
    assert!(!o.process("gc_trigger", 101));
    assert!(!o.process("no_such_option", 1));
    assert_eq!(o.threads, 4);
    assert_eq!(o.gc_trigger_percent, 75);
}

#[test]
fn string_equality_helper() {
    assert!(str_eq("threads", "threads"));
    assert!(!str_eq("threads", "thread"));
    assert!(!str_eq("", "a"));
    assert!(str_eq("", ""));
}
