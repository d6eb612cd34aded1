# fnwalk

A distance sensor and a buzzer, each on a USB serial port, served to web pages.

The buzzer is asked for its state twenty times a second at most, and every change is reported. The
sensor sends a line for each measurement; its echo time becomes a distance in centimetres. Both are
sent over a web socket as JSON, one object for each report:

    {"pressed":true,"ts":1600000000123,"type":"buzzer"}
    {"distance":300,"ts":1600000000140,"type":"sensor"}

`src/` is the verified library: the codecs, the decisions of the streams and of the device loops,
the search for a port, the conversion to a distance, and the messages. `app/` is the program around
it: serial ports, timers, actors and the web server, which listens on 127.0.0.1:8050.

Without the devices, run it with `--demo`, `--demo-buzzer` or `--demo-sensor`.
