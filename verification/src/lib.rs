//! A bare-metal Ethernet frame responder.
//!
//! The library decodes raw link-layer frames, answers address-resolution
//! (ARP) requests, ICMP echo requests, and CoAP requests carried over UDP,
//! and synthesizes the reply frames byte by byte. It keeps a small, bounded
//! address-resolution cache, learned opportunistically from received
//! traffic. A thin driver loop outside the library performs the actual
//! receive and transmit calls and hands frames in and out as plain byte
//! vectors.
//!
//! Beside the responder core stand the decision parts of the two companion
//! demos: the HTTP request parser with the fixed responses and chunking of
//! the page server, and the six-step commutation state machine of the
//! brushless-motor driver.

pub mod arp;
pub mod cache;
pub mod checksum;
pub mod coap;
pub mod frame;
pub mod http;
pub mod icmp;
pub mod motor;
pub mod responder;
pub mod server;
